//! Monomorphization: one copy of each generic function for each way it is used.
use vstd::prelude::*;

use crate::lower::stmt_view;
use crate::mono_laws::{calls_land, law_every_generic_call_has_a_target};
use crate::mono_spec;
use crate::mono_spec::{is_alphanumeric, MadeView, ModeView, MonoEnv, MonoState, NESTING};
use crate::name_table::NameTable;
use crate::pattern::shown;
use crate::source::{decimal, text, text2, text3};
use crate::symbol::SymbolId;
use crate::tree::{
    arm_patterns, arm_trees, block_tree, capture_views, expr_tree, expr_trees, field_indices,
    field_trees, hole_trees, item_view, item_views, lemma_trees_push, opt_block_trees,
    opt_expr_trees, param_views, pattern_view, pattern_views, stmt_trees, texts_before,
    AssignOp, Capture, FnView, InterpHole, Lit, Node, RuntimeSymbol, Tree, TypedBlock,
    TypedExpr, TypedField, TypedFn, TypedItem, TypedMatchArm, TypedModule, TypedParam,
    TypedPattern, TypedStmt,
};
use crate::typedb::{Scheme, TypeDb};
use crate::types::{Type, TypeList};

verus! {

/// What a pass reads.
pub struct MonoContext<'a> {
    pub names: &'a NameTable,
    /// The functions as they were written.
    pub originals: &'a Vec<TypedItem>,
}

impl<'a> MonoContext<'a> {
    pub open spec fn env(self) -> MonoEnv {
        MonoEnv { names: self.names@, originals: item_views(self.originals@) }
    }
}

/// One copy: what it was made for, and its name.
pub struct Made {
    pub callee: SymbolId,
    pub args: TypeList,
    pub result: Type,
    pub name: String,
}

impl View for Made {
    type V = MadeView;

    open spec fn view(&self) -> MadeView {
        MadeView {
            callee: self.callee,
            args: self.args,
            result: self.result,
            name: self.name@,
        }
    }
}

/// A pass under way.
pub struct MonoPass {
    pub db: TypeDb,
    pub made: Vec<Made>,
    pub used: Vec<String>,
    pub clones: Vec<TypedItem>,
}

impl View for MonoPass {
    type V = MonoState;

    open spec fn view(&self) -> MonoState {
        MonoState {
            db: self.db@,
            made: self.made@.map_values(|m: Made| m@),
            used: self.used@.map_values(|s: String| s@),
            clones: item_views(self.clones@),
        }
    }
}

/// What a walk does to a tree.
pub enum Mode<'a> {
    Choose(&'a Vec<u32>, &'a Vec<Type>),
    Retarget,
}

impl<'a> Mode<'a> {
    pub open spec fn seen(self) -> ModeView {
        match self {
            Mode::Choose(b, a) => ModeView::Choose(b@, a@),
            Mode::Retarget => ModeView::Retarget,
        }
    }

    fn is_retarget(&self) -> (r: bool)
        ensures
            r == (self.seen() is Retarget),
    {
        match self {
            Mode::Choose(_, _) => false,
            Mode::Retarget => true,
        }
    }
}

// ---------------------------------------------------------------------------
// Names
// ---------------------------------------------------------------------------

/// Keeps letters, numbers and `_`, and replaces everything else by `_`.
pub fn sanitized(s: &str) -> (r: String)
    ensures
        r@ == mono_spec::sanitized(s@),
{
    let mut out = String::new();
    let n: usize = s.unicode_len();
    let mut i: usize = 0;
    assert(out@ =~= mono_spec::sanitized(s@).take(0));
    while i < n
        invariant
            i <= n,
            n == s@.len(),
            out@ == mono_spec::sanitized(s@).take(i as int),
        decreases n - i,
    {
        let c = s.get_char(i);
        let ghost before = out@;
        proof {
            reveal_strlit("_");
        }
        if is_alphanumeric(c) || c == '_' {
            out.append(s.substring_char(i, i + 1));
            assert(s@.subrange(i as int, i + 1) =~= seq![c]);
        } else {
            out.append("_");
            assert("_"@ =~= seq!['_']);
        }
        assert(out@ =~= mono_spec::sanitized(s@).take(i + 1));
        i += 1;
    }
    assert(mono_spec::sanitized(s@).take(i as int) =~= mono_spec::sanitized(s@));
    out
}

pub open spec fn texts(v: Seq<String>) -> Seq<Seq<char>> {
    v.map_values(|s: String| s@)
}

fn suffix(parts: &Vec<String>) -> (r: String)
    ensures
        r@ == mono_spec::suffix(texts(parts@)),
{
    let ghost all = texts(parts@);
    let mut out = String::new();
    let mut i: usize = 0;
    assert(out@ =~= mono_spec::suffix(all.take(0)));
    while i < parts.len()
        invariant
            i <= parts@.len(),
            all == texts(parts@),
            out@ == mono_spec::suffix(all.take(i as int)),
        decreases parts@.len() - i,
    {
        let part = sanitized(&parts[i]);
        assert(all.take(i + 1).drop_last() =~= all.take(i as int));
        assert(all.take(i + 1).last() == parts@[i as int]@);
        if i == 0 {
            assert(all.take(i + 1)[0] == parts@[0]@);
            out = part;
        } else {
            out = text3(&out, "_", &part);
        }
        i += 1;
    }
    assert(all.take(i as int) =~= all);
    out
}

/// A copy's readable name.
pub fn mangled_name(names: &NameTable, callee: SymbolId, parts: &Vec<String>) -> (r: String)
    ensures
        r@ == mono_spec::mangled_name(names@, callee, texts(parts@)),
{
    let base = match names.get(callee) {
        Some(s) => text(&s.name),
        None => text2("fn", &decimal(callee.0 as u64)),
    };
    let tail = suffix(parts);
    if tail.unicode_len() == 0 {
        text2(&base, "__mono")
    } else {
        text3(&base, "__", &tail)
    }
}

fn candidate(base: &String, n: u64) -> (r: String)
    ensures
        r@ == mono_spec::candidate(base@, n as nat),
{
    if n == 0 {
        text(base)
    } else {
        text3(base, "__", &decimal(n))
    }
}

fn is_used(used: &Vec<String>, name: &String) -> (r: bool)
    ensures
        r == texts(used@).contains(name@),
{
    let mut i: usize = 0;
    while i < used.len()
        invariant
            i <= used@.len(),
            forall|j: int| 0 <= j < i ==> (#[trigger] texts(used@)[j]) != name@,
        decreases used@.len() - i,
    {
        assert(texts(used@)[i as int] == used@[i as int]@);
        if used[i] == *name {
            return true;
        }
        i += 1;
    }
    false
}

/// A name that no copy has yet.
pub fn fresh_name(base: &String, used: &Vec<String>) -> (r: String)
    ensures
        r@ == mono_spec::fresh_name(base@, texts(used@)),
{
    let ghost taken = texts(used@);
    let mut n: usize = 0;
    while n < used.len()
        invariant
            n <= used@.len(),
            taken == texts(used@),
            mono_spec::first_free(base@, taken, 0, taken.len()) == mono_spec::first_free(
                base@,
                taken,
                n as nat,
                (taken.len() - n) as nat,
            ),
        decreases used@.len() - n,
    {
        let name = candidate(base, n as u64);
        if !is_used(used, &name) {
            return name;
        }
        n += 1;
    }
    candidate(base, n as u64)
}

// ---------------------------------------------------------------------------
// Types
// ---------------------------------------------------------------------------

impl Lit {
    pub fn dup(&self) -> (r: Lit)
        ensures
            r@ == self@,
    {
        match self {
            Lit::Int(n) => Lit::Int(*n),
            Lit::Float(b) => Lit::Float(*b),
            Lit::Text(s) => Lit::Text(text(s)),
            Lit::Bool(b) => Lit::Bool(*b),
            Lit::Char(c) => Lit::Char(*c),
            Lit::Unit => Lit::Unit,
        }
    }
}

/// A type under a walk.
pub fn chosen_type(db: &TypeDb, m: &Mode, t: &Type) -> (r: Type)
    ensures
        r == mono_spec::chosen_type(db@, m.seen(), *t),
{
    match m {
        Mode::Choose(binders, args) => db.deep_resolve(t).filled(binders, args),
        Mode::Retarget => t.dup(),
    }
}

fn chosen_types(db: &TypeDb, m: &Mode, ts: &Vec<Type>) -> (r: Vec<Type>)
    ensures
        r@ == mono_spec::chosen_types(db@, m.seen(), ts@),
{
    let mut out: Vec<Type> = Vec::new();
    let mut i: usize = 0;
    while i < ts.len()
        invariant
            i <= ts@.len(),
            out@.len() == i,
            forall|j: int|
                0 <= j < i ==> (#[trigger] out@[j]) == mono_spec::chosen_type(
                    db@,
                    m.seen(),
                    ts@[j],
                ),
        decreases ts@.len() - i,
    {
        out.push(chosen_type(db, m, &ts[i]));
        i += 1;
    }
    assert(out@ =~= mono_spec::chosen_types(db@, m.seen(), ts@));
    out
}

/// A pattern under a walk.
pub fn chosen_pattern(db: &TypeDb, m: &Mode, p: &TypedPattern) -> (r: TypedPattern)
    ensures
        pattern_view(r) == mono_spec::chosen_pattern(db@, m.seen(), pattern_view(*p)),
    decreases p, 0nat,
{
    match p {
        TypedPattern::Wildcard => TypedPattern::Wildcard,
        TypedPattern::Lit { value, ty } => TypedPattern::Lit {
            value: value.dup(),
            ty: chosen_type(db, m, ty),
        },
        TypedPattern::Bind { symbol, name, ty, span } => TypedPattern::Bind {
            symbol: *symbol,
            name: text(name),
            ty: chosen_type(db, m, ty),
            span: *span,
        },
        TypedPattern::EnumVariant { enum_def_id, variant_idx, subpatterns, ty } => {
            TypedPattern::EnumVariant {
                enum_def_id: *enum_def_id,
                variant_idx: *variant_idx,
                subpatterns: chosen_patterns(db, m, subpatterns),
                ty: chosen_type(db, m, ty),
            }
        },
        TypedPattern::Tuple { subpatterns, ty } => TypedPattern::Tuple {
            subpatterns: chosen_patterns(db, m, subpatterns),
            ty: chosen_type(db, m, ty),
        },
        TypedPattern::Record { record_def_id, subpatterns, ty } => TypedPattern::Record {
            record_def_id: *record_def_id,
            subpatterns: chosen_patterns(db, m, subpatterns),
            ty: chosen_type(db, m, ty),
        },
    }
}

fn chosen_patterns(db: &TypeDb, m: &Mode, ps: &Vec<TypedPattern>) -> (r: Vec<TypedPattern>)
    ensures
        pattern_views(r@) == mono_spec::chosen_patterns(db@, m.seen(), pattern_views(ps@)),
    decreases ps, 0nat,
{
    let mut out: Vec<TypedPattern> = Vec::new();
    let mut i: usize = 0;
    assert(pattern_views(ps@.take(0)) =~= Seq::empty());
    assert(pattern_views(out@) =~= Seq::empty());
    while i < ps.len()
        invariant
            i <= ps@.len(),
            pattern_views(out@) == mono_spec::chosen_patterns(
                db@,
                m.seen(),
                pattern_views(ps@.take(i as int)),
            ),
        decreases ps@.len() - i,
    {
        let p = chosen_pattern(db, m, &ps[i]);
        assert(ps@.take(i + 1).drop_last() =~= ps@.take(i as int));
        assert(ps@.take(i + 1).last() == ps@[i as int]);
        let ghost old_views = pattern_views(ps@.take(i as int));
        let ghost before = out@;
        out.push(p);
        assert(out@.drop_last() =~= before);
        assert(out@.last() == p);
        assert(pattern_views(out@) == pattern_views(before).push(pattern_view(p)));
        assert(pattern_views(ps@.take(i + 1)) == old_views.push(pattern_view(ps@[i as int])));
        assert(old_views.push(pattern_view(ps@[i as int])).drop_last() =~= old_views);
        i += 1;
    }
    assert(ps@.take(i as int) =~= ps@);
    out
}

fn chosen_param(db: &TypeDb, m: &Mode, p: &TypedParam) -> (r: TypedParam)
    ensures
        r@ == mono_spec::chosen_param(db@, m.seen(), p@),
{
    let name: Option<String> = match &p.name {
        Some(n) => Some(text(n)),
        None => None,
    };
    TypedParam { symbol: p.symbol, name, ty: chosen_type(db, m, &p.ty) }
}

fn chosen_params(db: &TypeDb, m: &Mode, ps: &Vec<TypedParam>) -> (r: Vec<TypedParam>)
    ensures
        param_views(r@) == mono_spec::chosen_params(db@, m.seen(), param_views(ps@)),
{
    let mut out: Vec<TypedParam> = Vec::new();
    let mut i: usize = 0;
    while i < ps.len()
        invariant
            i <= ps@.len(),
            out@.len() == i,
            forall|j: int|
                0 <= j < i ==> (#[trigger] out@[j])@ == mono_spec::chosen_param(
                    db@,
                    m.seen(),
                    ps@[j]@,
                ),
        decreases ps@.len() - i,
    {
        out.push(chosen_param(db, m, &ps[i]));
        i += 1;
    }
    assert(param_views(out@) =~= mono_spec::chosen_params(db@, m.seen(), param_views(ps@)));
    out
}

fn chosen_captures(db: &TypeDb, m: &Mode, cs: &Vec<Capture>) -> (r: Vec<Capture>)
    ensures
        capture_views(r@) == mono_spec::chosen_captures(db@, m.seen(), capture_views(cs@)),
{
    let mut out: Vec<Capture> = Vec::new();
    let mut i: usize = 0;
    while i < cs.len()
        invariant
            i <= cs@.len(),
            out@.len() == i,
            forall|j: int|
                0 <= j < i ==> (#[trigger] out@[j])@ == mono_spec::chosen_capture(
                    db@,
                    m.seen(),
                    cs@[j]@,
                ),
        decreases cs@.len() - i,
    {
        let c = &cs[i];
        out.push(
            Capture {
                symbol: c.symbol,
                name: text(&c.name),
                ty: chosen_type(db, m, &c.ty),
                kind: c.kind,
            },
        );
        i += 1;
    }
    assert(capture_views(out@) =~= mono_spec::chosen_captures(
        db@,
        m.seen(),
        capture_views(cs@),
    ));
    out
}

// ---------------------------------------------------------------------------
// Copies
// ---------------------------------------------------------------------------

impl<'a> MonoContext<'a> {
    fn scheme_of(&self, id: SymbolId) -> (r: Option<&Scheme>)
        ensures
            match mono_spec::scheme_of(self.env().names, id) {
                Some(s) => r matches Some(x) && x@ == s,
                None => r is None,
            },
    {
        match self.names.get(id) {
            Some(s) => match &s.scheme {
                Some(scheme) => Some(scheme),
                None => None,
            },
            None => None,
        }
    }

    fn polymorphic(&self, id: SymbolId) -> (r: bool)
        ensures
            r == mono_spec::polymorphic(self.env().names, id),
    {
        match self.scheme_of(id) {
            Some(s) => s.is_polymorphic(),
            None => false,
        }
    }

    fn original(&self, id: SymbolId) -> (r: Option<&TypedFn>)
        ensures
            match mono_spec::original(self.env().originals, id) {
                Some(f) => r matches Some(x) && x@ == f,
                None => r is None,
            },
    {
        let ghost all = self.env().originals;
        let mut i: usize = self.originals.len();
        assert(all.take(i as int) =~= all);
        while i > 0
            invariant
                i <= self.originals@.len(),
                all == item_views(self.originals@),
                mono_spec::original(all, id) == mono_spec::original(all.take(i as int), id),
            decreases i,
        {
            assert(all.take(i as int).drop_last() =~= all.take(i - 1));
            assert(all.take(i as int).last() == all[i - 1]);
            i -= 1;
            assert(all[i as int] == item_view(self.originals@[i as int]));
            match &self.originals[i] {
                TypedItem::Fn(f) => {
                    if f.symbol == id {
                        return Some(f);
                    }
                },
            }
        }
        None
    }

    fn copied(&self, callee: SymbolId) -> (r: bool)
        ensures
            r == mono_spec::copied(self.env(), callee),
    {
        self.polymorphic(callee) && self.original(callee).is_some()
    }
}

/// The parameters and the result of a function type; anything else is a result.
pub fn func_shape(t: &Type) -> (r: (Vec<Type>, Type))
    ensures
        (r.0@, r.1) == mono_spec::func_shape(*t),
{
    match t {
        Type::Func(ps, r) => (ps.to_vec(), r.dup()),
        _ => {
            let none: Vec<Type> = Vec::new();
            assert(none@ =~= Seq::empty());
            (none, t.dup())
        },
    }
}

fn resolved(db: &TypeDb, ts: &Vec<Type>) -> (r: Vec<Type>)
    ensures
        r@ == mono_spec::resolved(db@, ts@),
{
    let mut out: Vec<Type> = Vec::new();
    let mut i: usize = 0;
    while i < ts.len()
        invariant
            i <= ts@.len(),
            out@.len() == i,
            forall|j: int| 0 <= j < i ==> (#[trigger] out@[j]) == db@.resolve(ts@[j]),
        decreases ts@.len() - i,
    {
        out.push(db.deep_resolve(&ts[i]));
        i += 1;
    }
    assert(out@ =~= mono_spec::resolved(db@, ts@));
    out
}

fn name_parts(db: &TypeDb, args: &Vec<Type>, result: &Type) -> (r: Vec<String>)
    ensures
        texts(r@) == mono_spec::name_parts(db@, args@, *result),
{
    let mut out: Vec<String> = Vec::new();
    if args.len() == 0 {
        out.push(db.render(&db.deep_resolve(result)));
        assert(texts(out@) =~= mono_spec::name_parts(db@, args@, *result));
        return out;
    }
    let mut i: usize = 0;
    while i < args.len()
        invariant
            i <= args@.len(),
            out@.len() == i,
            forall|j: int|
                0 <= j < i ==> (#[trigger] out@[j])@ == shown(db@, db@.resolve(args@[j])),
        decreases args@.len() - i,
    {
        out.push(db.render(&db.deep_resolve(&args[i])));
        i += 1;
    }
    assert(texts(out@) =~= mono_spec::name_parts(db@, args@, *result));
    out
}

/// What a use of a scheme chooses for each binder.
pub fn choices(db: &mut TypeDb, s: &Scheme, args: &Vec<Type>, result: &Type) -> (r: Vec<Type>)
    ensures
        (r@, final(db)@) == mono_spec::choices(old(db)@, s@, args@, *result),
{
    let mut vars: Vec<Type> = Vec::new();
    let mut i: usize = 0;
    assert(vars@ =~= Seq::empty());
    while i < s.binders.len()
        invariant
            i <= s.binders@.len(),
            (vars@, db@) == mono_spec::fresh_vars(old(db)@, i as nat),
        decreases s.binders@.len() - i,
    {
        let v = db.fresh_var();
        vars.push(v);
        i += 1;
    }
    let ghost d1 = db@;
    let (params, shape_result) = func_shape(&db.deep_resolve(&s.body.filled(&s.binders, &vars)));
    let mut k: usize = 0;
    while k < params.len() && k < args.len()
        invariant
            k <= params@.len(),
            k <= args@.len(),
            db@ == mono_spec::unify_pairs(d1, params@, args@, k as nat),
        decreases params@.len() - k,
    {
        let _ = db.unify(&params[k], &args[k]);
        k += 1;
    }
    let _ = db.unify(&shape_result, result);
    let out = resolved(db, &vars);
    assert(out@ =~= mono_spec::choices(old(db)@, s@, args@, *result).0);
    out
}

fn made_before(made: &Vec<Made>, callee: SymbolId, args: &TypeList, result: &Type) -> (r: Option<String>)
    ensures
        match mono_spec::find_made(made@.map_values(|m: Made| m@), callee, *args, *result) {
            Some(n) => r matches Some(x) && x@ == n,
            None => r is None,
        },
{
    let ghost all = made@.map_values(|m: Made| m@);
    let mut i: usize = made.len();
    assert(all.take(i as int) =~= all);
    while i > 0
        invariant
            i <= made@.len(),
            all == made@.map_values(|m: Made| m@),
            mono_spec::find_made(all, callee, *args, *result) == mono_spec::find_made(
                all.take(i as int),
                callee,
                *args,
                *result,
            ),
        decreases i,
    {
        assert(all.take(i as int).drop_last() =~= all.take(i - 1));
        assert(all.take(i as int).last() == all[i - 1]);
        i -= 1;
        assert(all[i as int] == made@[i as int]@);
        if made[i].callee == callee && made[i].args.same(args) && made[i].result.same(result) {
            return Some(text(&made[i].name));
        }
    }
    None
}

// ---------------------------------------------------------------------------
// Statements
// ---------------------------------------------------------------------------

/// What a store through a subscript stores to.
struct Place {
    receiver: TypedExpr,
    indices: Vec<TypedExpr>,
}

spec fn place_trees(p: Place) -> Seq<Tree> {
    seq![expr_tree(p.receiver)] + expr_trees(p.indices@)
}

spec fn var_node(symbol: SymbolId, name: Seq<char>, ty: Type, init: Tree, span: (u32, u32)) -> Tree {
    Tree { node: Node::Var(symbol, name), ty, span, kids: seq![init] }
}

spec fn assign_node(
    symbol: SymbolId,
    name: Seq<char>,
    op: AssignOp,
    value: Tree,
    span: (u32, u32),
) -> Tree {
    Tree { node: Node::Assign(symbol, name, op), ty: Type::Unit, span, kids: seq![value] }
}

spec fn index_assign_node(
    get: Option<RuntimeSymbol>,
    set: RuntimeSymbol,
    op: AssignOp,
    kids: Seq<Tree>,
    span: (u32, u32),
) -> Tree {
    Tree { node: Node::IndexAssign(get, set, op), ty: Type::Unit, span, kids }
}

spec fn field_assign_node(field: u32, op: AssignOp, receiver: Tree, value: Tree, span: (u32, u32)) -> Tree {
    Tree { node: Node::FieldAssign(field, op), ty: Type::Unit, span, kids: seq![receiver, value] }
}

spec fn effect_node(e: Tree) -> Tree {
    Tree { node: Node::ExprStmt, ty: Type::Unit, span: (0, 0), kids: seq![e] }
}

/// A statement's tree, by its kind.
proof fn lemma_stmt_view(s: TypedStmt)
    ensures
        match s {
            TypedStmt::Var { symbol, name, ty, init, span } => stmt_view(s) == var_node(
                symbol,
                name@,
                ty,
                expr_tree(init),
                span,
            ),
            TypedStmt::Assign { symbol, name, op, value, span } => stmt_view(s) == assign_node(
                symbol,
                name@,
                op,
                expr_tree(value),
                span,
            ),
            TypedStmt::IndexAssign { receiver, indices, get, set, op, value, span } => stmt_view(s)
                == index_assign_node(
                get,
                set,
                op,
                (seq![expr_tree(receiver)] + expr_trees(indices@)).push(expr_tree(value)),
                span,
            ),
            TypedStmt::FieldAssign { receiver, field_idx, op, value, span } => stmt_view(s)
                == field_assign_node(field_idx, op, expr_tree(receiver), expr_tree(value), span),
            TypedStmt::Expr(e) => stmt_view(s) == effect_node(expr_tree(e)),
        },
{
    reveal(stmt_view);
}

fn var_stmt(symbol: SymbolId, name: String, ty: Type, init: TypedExpr, span: (u32, u32)) -> (r: TypedStmt)
    ensures
        stmt_view(r) == var_node(symbol, name@, ty, expr_tree(init), span),
{
    let r = TypedStmt::Var { symbol, name, ty, init, span };
    proof {
        lemma_stmt_view(r);
    }
    r
}

fn assign_stmt(symbol: SymbolId, name: String, op: AssignOp, value: TypedExpr, span: (u32, u32)) -> (r:
    TypedStmt)
    ensures
        stmt_view(r) == assign_node(symbol, name@, op, expr_tree(value), span),
{
    let r = TypedStmt::Assign { symbol, name, op, value, span };
    proof {
        lemma_stmt_view(r);
    }
    r
}

fn index_assign_stmt(
    place: Place,
    get: Option<RuntimeSymbol>,
    set: RuntimeSymbol,
    op: AssignOp,
    value: TypedExpr,
    span: (u32, u32),
) -> (r: TypedStmt)
    ensures
        stmt_view(r) == index_assign_node(
            get,
            set,
            op,
            place_trees(place).push(expr_tree(value)),
            span,
        ),
{
    let r = TypedStmt::IndexAssign {
        receiver: place.receiver,
        indices: place.indices,
        get,
        set,
        op,
        value,
        span,
    };
    proof {
        lemma_stmt_view(r);
    }
    r
}

fn field_assign_stmt(
    receiver: TypedExpr,
    field_idx: u32,
    op: AssignOp,
    value: TypedExpr,
    span: (u32, u32),
) -> (r: TypedStmt)
    ensures
        stmt_view(r) == field_assign_node(
            field_idx,
            op,
            expr_tree(receiver),
            expr_tree(value),
            span,
        ),
{
    let r = TypedStmt::FieldAssign { receiver, field_idx, op, value, span };
    proof {
        lemma_stmt_view(r);
    }
    r
}

fn effect_stmt(e: TypedExpr) -> (r: TypedStmt)
    ensures
        stmt_view(r) == effect_node(expr_tree(e)),
{
    let r = TypedStmt::Expr(e);
    proof {
        lemma_stmt_view(r);
    }
    r
}

impl MonoPass {
    /// Starts a copy: its name, which nothing else has.
    fn begin(&mut self, ctx: &MonoContext, callee: SymbolId, args: &Vec<Type>, result: &Type) -> (r:
        String)
        requires
            mono_spec::find_made(
                old(self)@.made,
                callee,
                TypeList::of(mono_spec::resolved(old(self)@.db, args@)),
                old(self)@.db.resolve(*result),
            ) is None,
        ensures
            ({
                let st = old(self)@;
                let base = mono_spec::mangled_name(
                    ctx.env().names,
                    callee,
                    mono_spec::name_parts(st.db, args@, *result),
                );
                let name = mono_spec::fresh_name(base, st.used);
                &&& r@ == name
                &&& final(self)@ == (MonoState {
                    made: st.made.push(
                        MadeView {
                            callee,
                            args: TypeList::of(mono_spec::resolved(st.db, args@)),
                            result: st.db.resolve(*result),
                            name,
                        },
                    ),
                    used: st.used.push(name),
                    ..st
                })
            }),
    {
        let parts = name_parts(&self.db, args, result);
        let base = mangled_name(ctx.names, callee, &parts);
        let name = fresh_name(&base, &self.used);
        let made = Made {
            callee,
            args: TypeList::from_vec(&resolved(&self.db, args)),
            result: self.db.deep_resolve(result),
            name: text(&name),
        };
        self.made.push(made);
        self.used.push(text(&name));
        assert(self@.made =~= old(self)@.made.push(made@));
        assert(self@.used =~= old(self)@.used.push(name@));
        name
    }

    /// The copy of `callee` for a use, made if there is none yet.
    pub fn instantiate(
        &mut self,
        ctx: &MonoContext,
        depth: u128,
        callee: SymbolId,
        args: &Vec<Type>,
        result: &Type,
    ) -> (r: String)
        ensures
            (r@, final(self)@) == mono_spec::instantiate(
                ctx.env(),
                depth as nat,
                callee,
                args@,
                *result,
                old(self)@,
            ),
        decreases 2 * depth + 1, result, 1nat,
    {
        let key_args = TypeList::from_vec(&resolved(&self.db, args));
        let key_result = self.db.deep_resolve(result);
        if let Some(name) = made_before(&self.made, callee, &key_args, &key_result) {
            return name;
        }
        let name = self.begin(ctx, callee, args, result);
        if let Some(f) = ctx.original(callee) {
            if let Some(scheme) = ctx.scheme_of(callee) {
                self.copy_fn(ctx, depth, f, scheme, args, result, &name);
            }
        }
        name
    }

    /// Adds the copy of `f` that a use of its scheme asks for.
    fn copy_fn(
        &mut self,
        ctx: &MonoContext,
        depth: u128,
        f: &TypedFn,
        scheme: &Scheme,
        args: &Vec<Type>,
        result: &Type,
        name: &String,
    )
        ensures
            final(self)@ == ({
                let s1 = old(self)@;
                let (chosen, db) = mono_spec::choices(s1.db, scheme@, args@, *result);
                let m = ModeView::Choose(scheme@.binders, chosen);
                let s2 = MonoState { db, ..s1 };
                let (body, s3) = mono_spec::walk(ctx.env(), m, depth as nat, f@.body, s2);
                let (retargeted, s4) = mono_spec::walk(
                    ctx.env(),
                    ModeView::Retarget,
                    depth as nat,
                    body,
                    s3,
                );
                let copy = FnView {
                    symbol: f@.symbol,
                    name: name@,
                    params: mono_spec::chosen_params(db, m, f@.params),
                    return_type: mono_spec::chosen_type(db, m, f@.return_type),
                    body: retargeted,
                    fn_type: mono_spec::chosen_type(db, m, f@.fn_type),
                    span: f@.span,
                };
                MonoState { clones: s4.clones.push(copy), ..s4 }
            }),
        decreases 2 * depth + 1, result, 0nat,
    {
        let chosen = choices(&mut self.db, scheme, args, result);
        let m = Mode::Choose(&scheme.binders, &chosen);
        let params = chosen_params(&self.db, &m, &f.params);
        let return_type = chosen_type(&self.db, &m, &f.return_type);
        let fn_type = chosen_type(&self.db, &m, &f.fn_type);
        let body = self.walk_block(ctx, &m, depth, &f.body);
        let retargeted = self.walk_block(ctx, &Mode::Retarget, depth, &body);
        let copy = TypedFn {
            symbol: f.symbol,
            name: text(name),
            params,
            return_type,
            body: retargeted,
            fn_type,
            span: f.span,
        };
        let ghost before = self@.clones;
        self.clones.push(TypedItem::Fn(copy));
        assert(self@.clones =~= before.push(copy@));
    }

    /// A block under a walk.
    pub fn walk_block(&mut self, ctx: &MonoContext, m: &Mode, depth: u128, b: &TypedBlock) -> (r: TypedBlock)
        ensures
            (block_tree(r), final(self)@) == mono_spec::walk(
                ctx.env(),
                m.seen(),
                depth as nat,
                block_tree(*b),
                old(self)@,
            ),
        decreases 2 * depth, b, 0nat,
    {
        let ty = chosen_type(&self.db, m, &b.ty);
        let stmts = self.walk_stmts(ctx, m, depth, &b.stmts);
        let ghost s1 = self@;
        let tail = self.walk_expr(ctx, m, depth, &b.tail);
        proof {
            let kids = stmt_trees(b.stmts@).push(expr_tree(b.tail));
            assert(kids.drop_last() =~= stmt_trees(b.stmts@));
        }
        TypedBlock { stmts, tail, ty }
    }

    fn walk_stmts(&mut self, ctx: &MonoContext, m: &Mode, depth: u128, stmts: &Vec<TypedStmt>) -> (r: Vec<
        TypedStmt,
    >)
        ensures
            (stmt_trees(r@), final(self)@) == mono_spec::walk_all(
                ctx.env(),
                m.seen(),
                depth as nat,
                stmt_trees(stmts@),
                old(self)@,
            ),
        decreases 2 * depth, stmts, 0nat,
    {
        let mut out: Vec<TypedStmt> = Vec::new();
        let mut i: usize = 0;
        assert(stmt_trees(out@) =~= Seq::empty());
        assert(stmt_trees(stmts@.take(0)) =~= Seq::empty());
        while i < stmts.len()
            invariant
                i <= stmts@.len(),
                (stmt_trees(out@), self@) == mono_spec::walk_all(
                    ctx.env(),
                    m.seen(),
                    depth as nat,
                    stmt_trees(stmts@.take(i as int)),
                    old(self)@,
                ),
            decreases stmts@.len() - i,
        {
            let s = self.walk_stmt(ctx, m, depth, &stmts[i]);
            proof {
                lemma_stmt_trees_step(stmts@, i as int);
                lemma_stmt_trees_push(out@, s);
            }
            out.push(s);
            i += 1;
        }
        assert(stmts@.take(i as int) =~= stmts@);
        out
    }

    fn walk_var(
        &mut self,
        ctx: &MonoContext,
        m: &Mode,
        depth: u128,
        symbol: SymbolId,
        name: &String,
        ty: &Type,
        init: &TypedExpr,
        span: (u32, u32),
    ) -> (r: TypedStmt)
        ensures
            (stmt_view(r), final(self)@) == mono_spec::walk(
                ctx.env(),
                m.seen(),
                depth as nat,
                var_node(symbol, name@, *ty, expr_tree(*init), span),
                old(self)@,
            ),
        decreases 2 * depth, init, 2nat,
    {
        let ty = chosen_type(&self.db, m, ty);
        proof {
            mono_spec::lemma_walk_one(
                ctx.env(),
                m.seen(),
                depth as nat,
                expr_tree(*init),
                self@,
            );
        }
        let x = self.walk_expr(ctx, m, depth, init);
        var_stmt(symbol, text(name), ty, x, span)
    }

    fn walk_assign(
        &mut self,
        ctx: &MonoContext,
        m: &Mode,
        depth: u128,
        symbol: SymbolId,
        name: &String,
        op: AssignOp,
        value: &TypedExpr,
        span: (u32, u32),
    ) -> (r: TypedStmt)
        ensures
            (stmt_view(r), final(self)@) == mono_spec::walk(
                ctx.env(),
                m.seen(),
                depth as nat,
                assign_node(symbol, name@, op, expr_tree(*value), span),
                old(self)@,
            ),
        decreases 2 * depth, value, 2nat,
    {
        proof {
            mono_spec::lemma_walk_one(
                ctx.env(),
                m.seen(),
                depth as nat,
                expr_tree(*value),
                self@,
            );
            lemma_unit_stays(self@.db, m.seen());
        }
        let x = self.walk_expr(ctx, m, depth, value);
        assign_stmt(symbol, text(name), op, x, span)
    }

    fn walk_effect(&mut self, ctx: &MonoContext, m: &Mode, depth: u128, e: &TypedExpr) -> (r: TypedStmt)
        ensures
            (stmt_view(r), final(self)@) == mono_spec::walk(
                ctx.env(),
                m.seen(),
                depth as nat,
                effect_node(expr_tree(*e)),
                old(self)@,
            ),
        decreases 2 * depth, e, 2nat,
    {
        proof {
            mono_spec::lemma_walk_one(ctx.env(), m.seen(), depth as nat, expr_tree(*e), self@);
            lemma_unit_stays(self@.db, m.seen());
        }
        let x = self.walk_expr(ctx, m, depth, e);
        effect_stmt(x)
    }

    /// The receiver and the indices of a store through a subscript.
    fn walk_place(
        &mut self,
        ctx: &MonoContext,
        m: &Mode,
        depth: u128,
        receiver: &TypedExpr,
        indices: &Vec<TypedExpr>,
        Ghost(outer): Ghost<TypedStmt>,
    ) -> (r: Place)
        requires
            decreases_to!(outer => receiver),
            decreases_to!(outer => indices),
        ensures
            (place_trees(r), final(self)@) == mono_spec::walk_all(
                ctx.env(),
                m.seen(),
                depth as nat,
                seq![expr_tree(*receiver)] + expr_trees(indices@),
                old(self)@,
            ),
        decreases 2 * depth, outer, 0nat,
    {
        proof {
            let d = depth as nat;
            mono_spec::lemma_walk_one(ctx.env(), m.seen(), d, expr_tree(*receiver), self@);
            mono_spec::lemma_walk_append(
                ctx.env(),
                m.seen(),
                d,
                seq![expr_tree(*receiver)],
                expr_trees(indices@),
                self@,
            );
        }
        let x = self.walk_expr(ctx, m, depth, receiver);
        let is = self.walk_exprs(ctx, m, depth, indices);
        Place { receiver: x, indices: is }
    }

    fn walk_index_assign(
        &mut self,
        ctx: &MonoContext,
        m: &Mode,
        depth: u128,
        place: Place,
        get: Option<RuntimeSymbol>,
        set: RuntimeSymbol,
        op: AssignOp,
        value: &TypedExpr,
        span: (u32, u32),
        Ghost(st): Ghost<MonoState>,
        Ghost(kids): Ghost<Seq<Tree>>,
    ) -> (r: TypedStmt)
        requires
            (place_trees(place), old(self)@) == mono_spec::walk_all(
                ctx.env(),
                m.seen(),
                depth as nat,
                kids,
                st,
            ),
        ensures
            (stmt_view(r), final(self)@) == mono_spec::walk(
                ctx.env(),
                m.seen(),
                depth as nat,
                index_assign_node(get, set, op, kids.push(expr_tree(*value)), span),
                st,
            ),
        decreases 2 * depth, value, 2nat,
    {
        proof {
            assert(kids.push(expr_tree(*value)).drop_last() =~= kids);
            lemma_unit_stays(st.db, m.seen());
        }
        let x = self.walk_expr(ctx, m, depth, value);
        index_assign_stmt(place, get, set, op, x, span)
    }

    fn walk_field_assign(
        &mut self,
        ctx: &MonoContext,
        m: &Mode,
        depth: u128,
        receiver: TypedExpr,
        field_idx: u32,
        op: AssignOp,
        value: &TypedExpr,
        span: (u32, u32),
        Ghost(st): Ghost<MonoState>,
        Ghost(kid): Ghost<Tree>,
    ) -> (r: TypedStmt)
        requires
            (expr_tree(receiver), old(self)@) == mono_spec::walk(
                ctx.env(),
                m.seen(),
                depth as nat,
                kid,
                st,
            ),
        ensures
            (stmt_view(r), final(self)@) == mono_spec::walk(
                ctx.env(),
                m.seen(),
                depth as nat,
                field_assign_node(field_idx, op, kid, expr_tree(*value), span),
                st,
            ),
        decreases 2 * depth, value, 2nat,
    {
        proof {
            mono_spec::lemma_walk_two(
                ctx.env(),
                m.seen(),
                depth as nat,
                kid,
                expr_tree(*value),
                st,
            );
            lemma_unit_stays(st.db, m.seen());
        }
        let x = self.walk_expr(ctx, m, depth, value);
        field_assign_stmt(receiver, field_idx, op, x, span)
    }

    pub(crate) fn walk_stmt(&mut self, ctx: &MonoContext, m: &Mode, depth: u128, s: &TypedStmt) -> (r: TypedStmt)
        ensures
            (stmt_view(r), final(self)@) == mono_spec::walk(
                ctx.env(),
                m.seen(),
                depth as nat,
                stmt_view(*s),
                old(self)@,
            ),
        decreases 2 * depth, s, 1nat,
    {
        proof {
            lemma_stmt_view(*s);
        }
        let ghost st = self@;
        match s {
            TypedStmt::Var { symbol, name, ty, init, span } => {
                self.walk_var(ctx, m, depth, *symbol, name, ty, init, *span)
            },
            TypedStmt::Assign { symbol, name, op, value, span } => {
                self.walk_assign(ctx, m, depth, *symbol, name, *op, value, *span)
            },
            TypedStmt::IndexAssign { receiver, indices, get, set, op, value, span } => {
                let place = self.walk_place(ctx, m, depth, receiver, indices, Ghost(*s));
                let ghost kids = seq![expr_tree(*receiver)] + expr_trees(indices@);
                self.walk_index_assign(
                    ctx,
                    m,
                    depth,
                    place,
                    *get,
                    *set,
                    *op,
                    value,
                    *span,
                    Ghost(st),
                    Ghost(kids),
                )
            },
            TypedStmt::FieldAssign { receiver, field_idx, op, value, span } => {
                let x = self.walk_expr(ctx, m, depth, receiver);
                self.walk_field_assign(
                    ctx,
                    m,
                    depth,
                    x,
                    *field_idx,
                    *op,
                    value,
                    *span,
                    Ghost(st),
                    Ghost(expr_tree(*receiver)),
                )
            },
            TypedStmt::Expr(e) => self.walk_effect(ctx, m, depth, e),
        }
    }

    fn walk_exprs(&mut self, ctx: &MonoContext, m: &Mode, depth: u128, es: &Vec<TypedExpr>) -> (r: Vec<
        TypedExpr,
    >)
        ensures
            (expr_trees(r@), final(self)@) == mono_spec::walk_all(
                ctx.env(),
                m.seen(),
                depth as nat,
                expr_trees(es@),
                old(self)@,
            ),
        decreases 2 * depth, es, 0nat,
    {
        let mut out: Vec<TypedExpr> = Vec::new();
        let mut i: usize = 0;
        assert(expr_trees(out@) =~= Seq::empty());
        assert(expr_trees(es@.take(0)) =~= Seq::empty());
        while i < es.len()
            invariant
                i <= es@.len(),
                (expr_trees(out@), self@) == mono_spec::walk_all(
                    ctx.env(),
                    m.seen(),
                    depth as nat,
                    expr_trees(es@.take(i as int)),
                    old(self)@,
                ),
            decreases es@.len() - i,
        {
            let e = self.walk_expr(ctx, m, depth, &es[i]);
            proof {
                lemma_expr_trees_step(es@, i as int);
                lemma_trees_push(out@, e);
            }
            out.push(e);
            i += 1;
        }
        assert(es@.take(i as int) =~= es@);
        out
    }

    fn walk_option(&mut self, ctx: &MonoContext, m: &Mode, depth: u128, e: &Option<Box<TypedExpr>>) -> (r:
        Option<Box<TypedExpr>>)
        ensures
            (opt_expr_trees(r), final(self)@) == mono_spec::walk_all(
                ctx.env(),
                m.seen(),
                depth as nat,
                opt_expr_trees(*e),
                old(self)@,
            ),
            r is Some == e is Some,
        decreases 2 * depth, e, 0nat,
    {
        match e {
            Some(b) => {
                proof {
                    mono_spec::lemma_walk_one(
                        ctx.env(),
                        m.seen(),
                        depth as nat,
                        expr_tree(**b),
                        self@,
                    );
                }
                let x = self.walk_expr(ctx, m, depth, b);
                Some(Box::new(x))
            },
            None => None,
        }
    }

    fn walk_option_block(
        &mut self,
        ctx: &MonoContext,
        m: &Mode,
        depth: u128,
        e: &Option<Box<TypedBlock>>,
    ) -> (r: Option<Box<TypedBlock>>)
        ensures
            (opt_block_trees(r), final(self)@) == mono_spec::walk_all(
                ctx.env(),
                m.seen(),
                depth as nat,
                opt_block_trees(*e),
                old(self)@,
            ),
        decreases 2 * depth, e, 0nat,
    {
        match e {
            Some(b) => {
                proof {
                    mono_spec::lemma_walk_one(
                        ctx.env(),
                        m.seen(),
                        depth as nat,
                        block_tree(**b),
                        self@,
                    );
                }
                let x = self.walk_block(ctx, m, depth, b);
                Some(Box::new(x))
            },
            None => None,
        }
    }

    fn walk_holes(&mut self, ctx: &MonoContext, m: &Mode, depth: u128, hs: &Vec<InterpHole>) -> (r: Vec<
        InterpHole,
    >)
        ensures
            (hole_trees(r@), final(self)@) == mono_spec::walk_all(
                ctx.env(),
                m.seen(),
                depth as nat,
                hole_trees(hs@),
                old(self)@,
            ),
            texts_before(r@) == texts_before(hs@),
        decreases 2 * depth, hs, 0nat,
    {
        let mut out: Vec<InterpHole> = Vec::new();
        let mut i: usize = 0;
        assert(hole_trees(out@) =~= Seq::empty());
        assert(hole_trees(hs@.take(0)) =~= Seq::empty());
        while i < hs.len()
            invariant
                i <= hs@.len(),
                out@.len() == i,
                forall|j: int| 0 <= j < i ==> (#[trigger] out@[j]).before@ == hs@[j].before@,
                (hole_trees(out@), self@) == mono_spec::walk_all(
                    ctx.env(),
                    m.seen(),
                    depth as nat,
                    hole_trees(hs@.take(i as int)),
                    old(self)@,
                ),
            decreases hs@.len() - i,
        {
            assert(decreases_to!(hs => hs@[i as int]));
            let hole = self.walk_expr(ctx, m, depth, &hs[i].hole);
            let h = InterpHole { before: text(&hs[i].before), hole };
            proof {
                lemma_hole_trees_step(hs@, i as int);
                lemma_hole_trees_push(out@, h);
            }
            out.push(h);
            i += 1;
        }
        assert(hs@.take(i as int) =~= hs@);
        assert(texts_before(out@) =~= texts_before(hs@));
        out
    }

    fn walk_fields(&mut self, ctx: &MonoContext, m: &Mode, depth: u128, fs: &Vec<TypedField>) -> (r: Vec<
        TypedField,
    >)
        ensures
            (field_trees(r@), final(self)@) == mono_spec::walk_all(
                ctx.env(),
                m.seen(),
                depth as nat,
                field_trees(fs@),
                old(self)@,
            ),
            field_indices(r@) == field_indices(fs@),
        decreases 2 * depth, fs, 0nat,
    {
        let mut out: Vec<TypedField> = Vec::new();
        let mut i: usize = 0;
        assert(field_trees(out@) =~= Seq::empty());
        assert(field_trees(fs@.take(0)) =~= Seq::empty());
        while i < fs.len()
            invariant
                i <= fs@.len(),
                out@.len() == i,
                forall|j: int| 0 <= j < i ==> (#[trigger] out@[j]).index == fs@[j].index,
                (field_trees(out@), self@) == mono_spec::walk_all(
                    ctx.env(),
                    m.seen(),
                    depth as nat,
                    field_trees(fs@.take(i as int)),
                    old(self)@,
                ),
            decreases fs@.len() - i,
        {
            assert(decreases_to!(fs => fs@[i as int]));
            let init = self.walk_expr(ctx, m, depth, &fs[i].init);
            let f = TypedField { index: fs[i].index, init };
            proof {
                lemma_field_trees_step(fs@, i as int);
                lemma_field_trees_push(out@, f);
            }
            out.push(f);
            i += 1;
        }
        assert(fs@.take(i as int) =~= fs@);
        assert(field_indices(out@) =~= field_indices(fs@));
        out
    }

    fn walk_arms(&mut self, ctx: &MonoContext, m: &Mode, depth: u128, arms: &Vec<TypedMatchArm>, patterns:
        Vec<TypedPattern>) -> (r: Vec<TypedMatchArm>)
        requires
            patterns@.len() == arms@.len(),
        ensures
            (arm_trees(r@), final(self)@) == mono_spec::walk_all(
                ctx.env(),
                m.seen(),
                depth as nat,
                arm_trees(arms@),
                old(self)@,
            ),
            arm_patterns(r@) == pattern_views(patterns@),
        decreases 2 * depth, arms, 0nat,
    {
        let ghost views = pattern_views(patterns@);
        let ghost given = patterns@;
        let mut patterns = patterns;
        let mut rev: Vec<TypedPattern> = Vec::new();
        proof {
            lemma_pattern_views_at(given);
        }
        while patterns.len() > 0
            invariant
                patterns@.len() + rev@.len() == given.len(),
                patterns@ == given.take(patterns@.len() as int),
                forall|j: int|
                    0 <= j < rev@.len() ==> (#[trigger] rev@[j]) == given[given.len() - 1 - j],
            decreases patterns@.len(),
        {
            let ghost k = patterns@.len() - 1;
            if let Some(p) = patterns.pop() {
                rev.push(p);
            }
            assert(patterns@ =~= given.take(k));
        }
        let mut out: Vec<TypedMatchArm> = Vec::new();
        let mut i: usize = 0;
        assert(arm_trees(out@) =~= Seq::empty());
        assert(arm_trees(arms@.take(0)) =~= Seq::empty());
        while i < arms.len()
            invariant
                i <= arms@.len(),
                out@.len() == i,
                given.len() == arms@.len(),
                rev@.len() == given.len() - i,
                forall|j: int|
                    0 <= j < rev@.len() ==> (#[trigger] rev@[j]) == given[given.len() - 1 - j],
                forall|j: int| 0 <= j < i ==> (#[trigger] out@[j]).pattern == given[j],
                (arm_trees(out@), self@) == mono_spec::walk_all(
                    ctx.env(),
                    m.seen(),
                    depth as nat,
                    arm_trees(arms@.take(i as int)),
                    old(self)@,
                ),
            decreases arms@.len() - i,
        {
            assert(decreases_to!(arms => arms@[i as int]));
            let body = self.walk_expr(ctx, m, depth, &arms[i].body);
            let pattern = match rev.pop() {
                Some(p) => p,
                None => TypedPattern::Wildcard,
            };
            let arm = TypedMatchArm { pattern, body };
            proof {
                lemma_arm_trees_step(arms@, i as int);
                lemma_arm_trees_push(out@, arm);
            }
            out.push(arm);
            i += 1;
        }
        assert(arms@.take(i as int) =~= arms@);
        assert(arm_patterns(out@) =~= views);
        out
    }
}

impl MonoPass {
    fn walk_leaf(&mut self, ctx: &MonoContext, m: &Mode, depth: u128, e: &TypedExpr) -> (r: TypedExpr)
        requires
            e is Lit || e is Path || e is FnValue || e is Continue || e is Read,
        ensures
            (expr_tree(r), final(self)@) == mono_spec::walk(
                ctx.env(),
                m.seen(),
                depth as nat,
                expr_tree(*e),
                old(self)@,
            ),
    {
        let ghost env = ctx.env();
        let ghost mv = m.seen();
        let ghost d = depth as nat;
        match e {
            TypedExpr::Lit { value, ty, span } => {
                TypedExpr::Lit { value: value.dup(), ty: chosen_type(&self.db, m, ty), span: *span }
            },
            TypedExpr::Path { symbol, ty, span } => {
                TypedExpr::Path { symbol: *symbol, ty: chosen_type(&self.db, m, ty), span: *span }
            },
            TypedExpr::FnValue { callee, callee_name, ty, span } => {
                TypedExpr::FnValue {
                    callee: *callee,
                    callee_name: text(callee_name),
                    ty: chosen_type(&self.db, m, ty),
                    span: *span,
                }
            },
            TypedExpr::Continue { ty, span } => {
                TypedExpr::Continue { ty: chosen_type(&self.db, m, ty), span: *span }
            },
            TypedExpr::Read { plan, ty, span } => {
                TypedExpr::Read { plan: *plan, ty: chosen_type(&self.db, m, ty), span: *span }
            },
            _ => {
                assert(false);
                TypedExpr::Continue { ty: Type::Never, span: (0, 0) }
            },
        }
    }

    fn walk_one(&mut self, ctx: &MonoContext, m: &Mode, depth: u128, e: &TypedExpr) -> (r: TypedExpr)
        requires
            e is Unary || e is Parse || e is TupleIndex || e is FieldGet,
        ensures
            (expr_tree(r), final(self)@) == mono_spec::walk(
                ctx.env(),
                m.seen(),
                depth as nat,
                expr_tree(*e),
                old(self)@,
            ),
        decreases 2 * depth, e, 0nat,
    {
        let ghost env = ctx.env();
        let ghost mv = m.seen();
        let ghost d = depth as nat;
        match e {
            TypedExpr::Unary { op, operand, ty, span } => {
                let ty = chosen_type(&self.db, m, ty);
                proof {
                    mono_spec::lemma_walk_one(env, mv, d, expr_tree(**operand), self@);
                }
                let x = self.walk_expr(ctx, m, depth, operand);
                TypedExpr::Unary { op: *op, operand: Box::new(x), ty, span: *span }
            },
            TypedExpr::Parse { text, plan, ty, span } => {
                let ty = chosen_type(&self.db, m, ty);
                proof {
                    mono_spec::lemma_walk_one(env, mv, d, expr_tree(**text), self@);
                }
                let x = self.walk_expr(ctx, m, depth, text);
                TypedExpr::Parse { plan: *plan, text: Box::new(x), ty, span: *span }
            },
            TypedExpr::TupleIndex { receiver, index, ty, span } => {
                let ty = chosen_type(&self.db, m, ty);
                proof {
                    mono_spec::lemma_walk_one(env, mv, d, expr_tree(**receiver), self@);
                }
                let x = self.walk_expr(ctx, m, depth, receiver);
                TypedExpr::TupleIndex { index: *index, receiver: Box::new(x), ty, span: *span }
            },
            TypedExpr::FieldGet { receiver, field_idx, ty, span } => {
                let ty = chosen_type(&self.db, m, ty);
                proof {
                    mono_spec::lemma_walk_one(env, mv, d, expr_tree(**receiver), self@);
                }
                let x = self.walk_expr(ctx, m, depth, receiver);
                TypedExpr::FieldGet { field_idx: *field_idx, receiver: Box::new(x), ty, span: *span }
            },
            _ => {
                assert(false);
                TypedExpr::Continue { ty: Type::Never, span: (0, 0) }
            },
        }
    }

    fn walk_two(&mut self, ctx: &MonoContext, m: &Mode, depth: u128, e: &TypedExpr) -> (r: TypedExpr)
        requires
            e is Bin || e is Range,
        ensures
            (expr_tree(r), final(self)@) == mono_spec::walk(
                ctx.env(),
                m.seen(),
                depth as nat,
                expr_tree(*e),
                old(self)@,
            ),
        decreases 2 * depth, e, 0nat,
    {
        let ghost env = ctx.env();
        let ghost mv = m.seen();
        let ghost d = depth as nat;
        match e {
            TypedExpr::Bin { op, lhs, rhs, ty, span } => {
                let ty = chosen_type(&self.db, m, ty);
                proof {
                    mono_spec::lemma_walk_two(env, mv, d, expr_tree(**lhs), expr_tree(**rhs), self@);
                }
                let x = self.walk_expr(ctx, m, depth, lhs);
                let y = self.walk_expr(ctx, m, depth, rhs);
                TypedExpr::Bin { op: *op, lhs: Box::new(x), rhs: Box::new(y), ty, span: *span }
            },
            TypedExpr::Range { start, end, inclusive, ty, span } => {
                let ty = chosen_type(&self.db, m, ty);
                proof {
                    mono_spec::lemma_walk_two(env, mv, d, expr_tree(**start), expr_tree(**end), self@);
                }
                let x = self.walk_expr(ctx, m, depth, start);
                let y = self.walk_expr(ctx, m, depth, end);
                TypedExpr::Range { inclusive: *inclusive, start: Box::new(x), end: Box::new(y), ty, span: *span }
            },
            _ => {
                assert(false);
                TypedExpr::Continue { ty: Type::Never, span: (0, 0) }
            },
        }
    }

    fn walk_optional(&mut self, ctx: &MonoContext, m: &Mode, depth: u128, e: &TypedExpr) -> (r: TypedExpr)
        requires
            e is Paren || e is Break || e is Return,
        ensures
            (expr_tree(r), final(self)@) == mono_spec::walk(
                ctx.env(),
                m.seen(),
                depth as nat,
                expr_tree(*e),
                old(self)@,
            ),
        decreases 2 * depth, e, 0nat,
    {
        let ghost env = ctx.env();
        let ghost mv = m.seen();
        let ghost d = depth as nat;
        match e {
            TypedExpr::Paren { inner, ty, span } => {
                let ty = chosen_type(&self.db, m, ty);
                let x = self.walk_option(ctx, m, depth, inner);
                TypedExpr::Paren { inner: x, ty, span: *span }
            },
            TypedExpr::Break { value, ty, span } => {
                let ty = chosen_type(&self.db, m, ty);
                let x = self.walk_option(ctx, m, depth, value);
                TypedExpr::Break { value: x, ty, span: *span }
            },
            TypedExpr::Return { value, ty, span } => {
                let ty = chosen_type(&self.db, m, ty);
                let x = self.walk_option(ctx, m, depth, value);
                TypedExpr::Return { value: x, ty, span: *span }
            },
            _ => {
                assert(false);
                TypedExpr::Continue { ty: Type::Never, span: (0, 0) }
            },
        }
    }

    fn walk_list(&mut self, ctx: &MonoContext, m: &Mode, depth: u128, e: &TypedExpr) -> (r: TypedExpr)
        requires
            e is Tuple || e is ListLit || e is EnumVariant || e is Interp || e is RecordLit,
        ensures
            (expr_tree(r), final(self)@) == mono_spec::walk(
                ctx.env(),
                m.seen(),
                depth as nat,
                expr_tree(*e),
                old(self)@,
            ),
        decreases 2 * depth, e, 0nat,
    {
        let ghost env = ctx.env();
        let ghost mv = m.seen();
        let ghost d = depth as nat;
        match e {
            TypedExpr::Tuple { elements, ty, span } => {
                let ty = chosen_type(&self.db, m, ty);
                let x = self.walk_exprs(ctx, m, depth, elements);
                TypedExpr::Tuple { elements: x, ty, span: *span }
            },
            TypedExpr::ListLit { elements, ty, span } => {
                let ty = chosen_type(&self.db, m, ty);
                let x = self.walk_exprs(ctx, m, depth, elements);
                TypedExpr::ListLit { elements: x, ty, span: *span }
            },
            TypedExpr::EnumVariant { enum_def_id, variant_idx, args, ty, span } => {
                let ty = chosen_type(&self.db, m, ty);
                let x = self.walk_exprs(ctx, m, depth, args);
                TypedExpr::EnumVariant { enum_def_id: *enum_def_id, variant_idx: *variant_idx, args: x, ty, span: *span }
            },
            TypedExpr::Interp { parts, trailing, ty, span } => {
                let ty = chosen_type(&self.db, m, ty);
                let x = self.walk_holes(ctx, m, depth, parts);
                TypedExpr::Interp { parts: x, trailing: text(trailing), ty, span: *span }
            },
            TypedExpr::RecordLit { record_def_id, fields, ty, span } => {
                let ty = chosen_type(&self.db, m, ty);
                let x = self.walk_fields(ctx, m, depth, fields);
                TypedExpr::RecordLit { record_def_id: *record_def_id, fields: x, ty, span: *span }
            },
            _ => {
                assert(false);
                TypedExpr::Continue { ty: Type::Never, span: (0, 0) }
            },
        }
    }

    fn walk_if(&mut self, ctx: &MonoContext, m: &Mode, depth: u128, e: &TypedExpr) -> (r: TypedExpr)
        requires
            e is If,
        ensures
            (expr_tree(r), final(self)@) == mono_spec::walk(
                ctx.env(),
                m.seen(),
                depth as nat,
                expr_tree(*e),
                old(self)@,
            ),
        decreases 2 * depth, e, 0nat,
    {
        let ghost env = ctx.env();
        let ghost mv = m.seen();
        let ghost d = depth as nat;
        match e {
            TypedExpr::If { cond, then_block, else_block, ty, span } => {
                let ty = chosen_type(&self.db, m, ty);
                proof {
                    let first = seq![expr_tree(**cond), block_tree(**then_block)];
                    mono_spec::lemma_walk_two(env, mv, d, expr_tree(**cond), block_tree(**then_block), self@);
                    mono_spec::lemma_walk_append(env, mv, d, first, opt_block_trees(*else_block), self@);
                }
                let c = self.walk_expr(ctx, m, depth, cond);
                let t = self.walk_block(ctx, m, depth, then_block);
                let o = self.walk_option_block(ctx, m, depth, else_block);
                TypedExpr::If {
                    cond: Box::new(c),
                    then_block: Box::new(t),
                    else_block: o,
                    ty,
                    span: *span,
                }
            },
            _ => {
                assert(false);
                TypedExpr::Continue { ty: Type::Never, span: (0, 0) }
            },
        }
    }

    fn walk_loop(&mut self, ctx: &MonoContext, m: &Mode, depth: u128, e: &TypedExpr) -> (r: TypedExpr)
        requires
            e is While || e is For || e is Loop || e is Closure || e is Block,
        ensures
            (expr_tree(r), final(self)@) == mono_spec::walk(
                ctx.env(),
                m.seen(),
                depth as nat,
                expr_tree(*e),
                old(self)@,
            ),
        decreases 2 * depth, e, 0nat,
    {
        let ghost env = ctx.env();
        let ghost mv = m.seen();
        let ghost d = depth as nat;
        match e {
            TypedExpr::While { cond, body, ty, span } => {
                let ty = chosen_type(&self.db, m, ty);
                proof {
                    mono_spec::lemma_walk_two(env, mv, d, expr_tree(**cond), block_tree(**body), self@);
                }
                let c = self.walk_expr(ctx, m, depth, cond);
                let b = self.walk_block(ctx, m, depth, body);
                TypedExpr::While { cond: Box::new(c), body: Box::new(b), ty, span: *span }
            },
            TypedExpr::For { binding, iter, body, item_ty, ty, span } => {
                let ty = chosen_type(&self.db, m, ty);
                let item_ty = chosen_type(&self.db, m, item_ty);
                let binding = chosen_pattern(&self.db, m, binding);
                proof {
                    mono_spec::lemma_walk_two(env, mv, d, expr_tree(**iter), block_tree(**body), self@);
                }
                let i = self.walk_expr(ctx, m, depth, iter);
                let b = self.walk_block(ctx, m, depth, body);
                TypedExpr::For {
                    binding,
                    iter: Box::new(i),
                    body: Box::new(b),
                    item_ty,
                    ty,
                    span: *span,
                }
            },
            TypedExpr::Loop { body, ty, span } => {
                let ty = chosen_type(&self.db, m, ty);
                proof {
                    mono_spec::lemma_walk_one(env, mv, d, block_tree(**body), self@);
                }
                let b = self.walk_block(ctx, m, depth, body);
                TypedExpr::Loop { body: Box::new(b), ty, span: *span }
            },
            TypedExpr::Closure { params, body, captures, fn_type, fn_name, ty, span } => {
                let ty = chosen_type(&self.db, m, ty);
                let fn_type = chosen_type(&self.db, m, fn_type);
                let params = chosen_params(&self.db, m, params);
                let captures = chosen_captures(&self.db, m, captures);
                proof {
                    mono_spec::lemma_walk_one(env, mv, d, block_tree(**body), self@);
                }
                let b = self.walk_block(ctx, m, depth, body);
                TypedExpr::Closure {
                    params,
                    body: Box::new(b),
                    captures,
                    fn_type,
                    fn_name: text(fn_name),
                    ty,
                    span: *span,
                }
            },
            TypedExpr::Block(b) => {
                let x = self.walk_block(ctx, m, depth, b);
                TypedExpr::Block(Box::new(x))
            },
            _ => {
                assert(false);
                TypedExpr::Continue { ty: Type::Never, span: (0, 0) }
            },
        }
    }

    fn walk_call(&mut self, ctx: &MonoContext, m: &Mode, depth: u128, e: &TypedExpr) -> (r: TypedExpr)
        requires
            e is Call,
        ensures
            (expr_tree(r), final(self)@) == mono_spec::walk(
                ctx.env(),
                m.seen(),
                depth as nat,
                expr_tree(*e),
                old(self)@,
            ),
        decreases 2 * depth, e, 0nat,
    {
        let ghost env = ctx.env();
        let ghost mv = m.seen();
        let ghost d = depth as nat;
        match e {
            TypedExpr::Call { callee, callee_name, args, arg_types, callee_expr, ty, span } => {
                let new_ty = chosen_type(&self.db, m, ty);
                let types = chosen_types(&self.db, m, arg_types);
                let ghost st = self@;
                let name = if m.is_retarget() && depth > 0 && ctx.copied(*callee) {
                    self.instantiate(ctx, depth - 1, *callee, arg_types, ty)
                } else {
                    text(callee_name)
                };
                proof {
                    mono_spec::lemma_walk_append(
                        env,
                        mv,
                        d,
                        expr_trees(args@),
                        opt_expr_trees(*callee_expr),
                        self@,
                    );
                }
                let x = self.walk_exprs(ctx, m, depth, args);
                let target = self.walk_option(ctx, m, depth, callee_expr);
                TypedExpr::Call {
                    callee: *callee,
                    callee_name: name,
                    args: x,
                    arg_types: types,
                    callee_expr: target,
                    ty: new_ty,
                    span: *span,
                }
            },
            _ => {
                assert(false);
                TypedExpr::Continue { ty: Type::Never, span: (0, 0) }
            },
        }
    }

    fn walk_method_call(&mut self, ctx: &MonoContext, m: &Mode, depth: u128, e: &TypedExpr) -> (r: TypedExpr)
        requires
            e is MethodCall,
        ensures
            (expr_tree(r), final(self)@) == mono_spec::walk(
                ctx.env(),
                m.seen(),
                depth as nat,
                expr_tree(*e),
                old(self)@,
            ),
        decreases 2 * depth, e, 0nat,
    {
        let ghost env = ctx.env();
        let ghost mv = m.seen();
        let ghost d = depth as nat;
        match e {
            TypedExpr::MethodCall {
                receiver,
                name,
                lowering_symbol,
                receiver_is_iterable,
                args,
                purity,
                ty,
                span,
            } => {
                let ty = chosen_type(&self.db, m, ty);
                proof {
                    mono_spec::lemma_walk_one(env, mv, d, expr_tree(**receiver), self@);
                    mono_spec::lemma_walk_append(
                        env,
                        mv,
                        d,
                        seq![expr_tree(**receiver)],
                        expr_trees(args@),
                        self@,
                    );
                }
                let r = self.walk_expr(ctx, m, depth, receiver);
                let x = self.walk_exprs(ctx, m, depth, args);
                TypedExpr::MethodCall {
                    receiver: Box::new(r),
                    name: text(name),
                    lowering_symbol: *lowering_symbol,
                    receiver_is_iterable: *receiver_is_iterable,
                    args: x,
                    purity: *purity,
                    ty,
                    span: *span,
                }
            },
            _ => {
                assert(false);
                TypedExpr::Continue { ty: Type::Never, span: (0, 0) }
            },
        }
    }

    fn walk_match(&mut self, ctx: &MonoContext, m: &Mode, depth: u128, e: &TypedExpr) -> (r: TypedExpr)
        requires
            e is Match,
        ensures
            (expr_tree(r), final(self)@) == mono_spec::walk(
                ctx.env(),
                m.seen(),
                depth as nat,
                expr_tree(*e),
                old(self)@,
            ),
        decreases 2 * depth, e, 0nat,
    {
        let ghost env = ctx.env();
        let ghost mv = m.seen();
        let ghost d = depth as nat;
        match e {
            TypedExpr::Match { scrutinee, arms, ty, span } => {
                let ty = chosen_type(&self.db, m, ty);
                let patterns = chosen_arm_patterns(&self.db, m, arms);
                proof {
                    mono_spec::lemma_walk_one(env, mv, d, expr_tree(**scrutinee), self@);
                    mono_spec::lemma_walk_append(
                        env,
                        mv,
                        d,
                        seq![expr_tree(**scrutinee)],
                        arm_trees(arms@),
                        self@,
                    );
                }
                let x = self.walk_expr(ctx, m, depth, scrutinee);
                let a = self.walk_arms(ctx, m, depth, arms, patterns);
                TypedExpr::Match { scrutinee: Box::new(x), arms: a, ty, span: *span }
            },
            _ => {
                assert(false);
                TypedExpr::Continue { ty: Type::Never, span: (0, 0) }
            },
        }
    }

    /// An expression under a walk.
    pub fn walk_expr(&mut self, ctx: &MonoContext, m: &Mode, depth: u128, e: &TypedExpr) -> (r: TypedExpr)
        ensures
            (expr_tree(r), final(self)@) == mono_spec::walk(
                ctx.env(),
                m.seen(),
                depth as nat,
                expr_tree(*e),
                old(self)@,
            ),
        decreases 2 * depth, e, 1nat,
    {
        match e {
            TypedExpr::Lit { .. } | TypedExpr::Path { .. } | TypedExpr::FnValue { .. }
            | TypedExpr::Continue { .. } | TypedExpr::Read { .. } => {
                self.walk_leaf(ctx, m, depth, e)
            },
            TypedExpr::Unary { .. } | TypedExpr::Parse { .. } | TypedExpr::TupleIndex { .. }
            | TypedExpr::FieldGet { .. } => self.walk_one(ctx, m, depth, e),
            TypedExpr::Bin { .. } | TypedExpr::Range { .. } => self.walk_two(ctx, m, depth, e),
            TypedExpr::Paren { .. } | TypedExpr::Break { .. } | TypedExpr::Return { .. } => {
                self.walk_optional(ctx, m, depth, e)
            },
            TypedExpr::Tuple { .. } | TypedExpr::ListLit { .. } | TypedExpr::EnumVariant { .. }
            | TypedExpr::Interp { .. } | TypedExpr::RecordLit { .. } => {
                self.walk_list(ctx, m, depth, e)
            },
            TypedExpr::If { .. } => self.walk_if(ctx, m, depth, e),
            TypedExpr::While { .. } | TypedExpr::For { .. } | TypedExpr::Loop { .. }
            | TypedExpr::Closure { .. } | TypedExpr::Block(_) => self.walk_loop(ctx, m, depth, e),
            TypedExpr::Call { .. } => self.walk_call(ctx, m, depth, e),
            TypedExpr::MethodCall { .. } => self.walk_method_call(ctx, m, depth, e),
            TypedExpr::Match { .. } => self.walk_match(ctx, m, depth, e),
        }
    }
}

fn chosen_arm_patterns(db: &TypeDb, m: &Mode, arms: &Vec<TypedMatchArm>) -> (r: Vec<TypedPattern>)
    ensures
        r@.len() == arms@.len(),
        pattern_views(r@) == mono_spec::chosen_patterns(db@, m.seen(), arm_patterns(arms@)),
{
    let ghost all = arm_patterns(arms@);
    let mut out: Vec<TypedPattern> = Vec::new();
    let mut i: usize = 0;
    assert(pattern_views(out@) =~= Seq::empty());
    assert(all.take(0) =~= Seq::empty());
    while i < arms.len()
        invariant
            i <= arms@.len(),
            out@.len() == i,
            all == arm_patterns(arms@),
            pattern_views(out@) == mono_spec::chosen_patterns(
                db@,
                m.seen(),
                all.take(i as int),
            ),
        decreases arms@.len() - i,
    {
        let p = chosen_pattern(db, m, &arms[i].pattern);
        assert(all.take(i + 1).drop_last() =~= all.take(i as int));
        assert(all.take(i + 1).last() == pattern_view(arms@[i as int].pattern));
        let ghost before = out@;
        out.push(p);
        assert(out@.drop_last() =~= before);
        i += 1;
    }
    assert(all.take(i as int) =~= all);
    out
}

/// A program without generic functions: every generic function is replaced by
/// one copy for each way it is used, and every call of one by a call of its copy.
pub fn monomorphize(module: TypedModule, names: &NameTable, db: &mut TypeDb) -> (r: TypedModule)
    ensures
        (item_views(r.items@), final(db)@) == mono_spec::mono_items(
            names@,
            item_views(module.items@),
            old(db)@,
        ),
        calls_land(names@, item_views(module.items@), item_views(r.items@)),
        r.diagnostics == module.diagnostics,
        r.escaping_vars == module.escaping_vars,
        r.reassigned_vars == module.reassigned_vars,
{
    let TypedModule { items, diagnostics, escaping_vars, reassigned_vars } = module;
    let ctx = MonoContext { names, originals: &items };
    let ghost env = ctx.env();
    let ghost all = item_views(items@);
    let mut owned = TypeDb::new();
    core::mem::swap(db, &mut owned);
    let mut pass = MonoPass {
        db: owned,
        made: Vec::new(),
        used: Vec::new(),
        clones: Vec::new(),
    };
    assert(pass@.made =~= Seq::empty());
    assert(pass@.used =~= Seq::empty());
    assert(pass@.clones =~= Seq::empty());
    let ghost s0 = pass@;
    let mut stay: Vec<TypedItem> = Vec::new();
    let mut i: usize = 0;
    assert(item_views(stay@) =~= Seq::empty());
    while i < items.len()
        invariant
            i <= items@.len(),
            ctx.env() == env,
            all == item_views(items@),
            (item_views(stay@), pass@) == mono_spec::kept(env, all.take(i as int), s0),
        decreases items@.len() - i,
    {
        assert(all.take(i + 1).drop_last() =~= all.take(i as int));
        assert(all.take(i + 1).last() == item_view(items@[i as int]));
        match &items[i] {
            TypedItem::Fn(f) => {
                if !ctx.polymorphic(f.symbol) {
                    let ghost before = item_views(stay@);
                    let kept = pass.keep(&ctx, f);
                    stay.push(TypedItem::Fn(kept));
                    assert(item_views(stay@) =~= before.push(kept@));
                }
            },
        }
        i += 1;
    }
    assert(all.take(i as int) =~= all);
    let ghost first = item_views(stay@);
    let ghost added = pass@.clones;
    let MonoPass { db: after, made: _, used: _, clones } = pass;
    let mut clones = clones;
    stay.append(&mut clones);
    assert(item_views(stay@) =~= first + added);
    *db = after;
    let count: usize = stay.len();
    proof {
        assert(count == item_views(stay@).len());
        law_every_generic_call_has_a_target(names@, all, s0.db);
    }
    TypedModule { items: stay, diagnostics, escaping_vars, reassigned_vars }
}

impl MonoPass {
    /// A function with one type: only its calls change.
    pub(crate) fn keep(&mut self, ctx: &MonoContext, f: &TypedFn) -> (r: TypedFn)
        ensures
            ({
                let (body, st) = mono_spec::walk(
                    ctx.env(),
                    ModeView::Retarget,
                    NESTING as nat,
                    f@.body,
                    old(self)@,
                );
                &&& r@ == (FnView { body, ..f@ })
                &&& final(self)@ == st
            }),
    {
        let m = Mode::Retarget;
        let params = chosen_params(&self.db, &m, &f.params);
        assert(param_views(params@) =~= param_views(f.params@));
        let body = self.walk_block(ctx, &m, NESTING, &f.body);
        TypedFn {
            symbol: f.symbol,
            name: text(&f.name),
            params,
            return_type: f.return_type.dup(),
            body,
            fn_type: f.fn_type.dup(),
            span: f.span,
        }
    }
}

proof fn lemma_unit_stays(db: crate::typedb::DbView, m: ModeView)
    ensures
        mono_spec::chosen_type(db, m, Type::Unit) == Type::Unit,
{
}

proof fn lemma_stmt_trees_step(s: Seq<TypedStmt>, i: int)
    requires
        0 <= i < s.len(),
    ensures
        stmt_trees(s.take(i + 1)).len() > 0,
        stmt_trees(s.take(i + 1)).drop_last() == stmt_trees(s.take(i)),
        stmt_trees(s.take(i + 1)).last() == stmt_view(s[i]),
{
    reveal(stmt_view);
    assert(s.take(i + 1).drop_last() =~= s.take(i));
    assert(stmt_trees(s.take(i + 1)).drop_last() =~= stmt_trees(s.take(i)));
}

proof fn lemma_stmt_trees_push(s: Seq<TypedStmt>, x: TypedStmt)
    ensures
        stmt_trees(s.push(x)) == stmt_trees(s).push(stmt_view(x)),
{
    reveal(stmt_view);
    assert(s.push(x).drop_last() =~= s);
}

proof fn lemma_expr_trees_step(s: Seq<TypedExpr>, i: int)
    requires
        0 <= i < s.len(),
    ensures
        expr_trees(s.take(i + 1)).len() > 0,
        expr_trees(s.take(i + 1)).drop_last() == expr_trees(s.take(i)),
        expr_trees(s.take(i + 1)).last() == expr_tree(s[i]),
{
    assert(s.take(i + 1).drop_last() =~= s.take(i));
    assert(expr_trees(s.take(i + 1)).drop_last() =~= expr_trees(s.take(i)));
}

proof fn lemma_hole_trees_step(s: Seq<InterpHole>, i: int)
    requires
        0 <= i < s.len(),
    ensures
        hole_trees(s.take(i + 1)).len() > 0,
        hole_trees(s.take(i + 1)).drop_last() == hole_trees(s.take(i)),
        hole_trees(s.take(i + 1)).last() == expr_tree(s[i].hole),
{
    assert(s.take(i + 1).drop_last() =~= s.take(i));
    assert(hole_trees(s.take(i + 1)).drop_last() =~= hole_trees(s.take(i)));
}

proof fn lemma_hole_trees_push(s: Seq<InterpHole>, x: InterpHole)
    ensures
        hole_trees(s.push(x)) == hole_trees(s).push(expr_tree(x.hole)),
{
    assert(s.push(x).drop_last() =~= s);
}

proof fn lemma_field_trees_step(s: Seq<TypedField>, i: int)
    requires
        0 <= i < s.len(),
    ensures
        field_trees(s.take(i + 1)).len() > 0,
        field_trees(s.take(i + 1)).drop_last() == field_trees(s.take(i)),
        field_trees(s.take(i + 1)).last() == expr_tree(s[i].init),
{
    assert(s.take(i + 1).drop_last() =~= s.take(i));
    assert(field_trees(s.take(i + 1)).drop_last() =~= field_trees(s.take(i)));
}

proof fn lemma_field_trees_push(s: Seq<TypedField>, x: TypedField)
    ensures
        field_trees(s.push(x)) == field_trees(s).push(expr_tree(x.init)),
{
    assert(s.push(x).drop_last() =~= s);
}

proof fn lemma_arm_trees_step(s: Seq<TypedMatchArm>, i: int)
    requires
        0 <= i < s.len(),
    ensures
        arm_trees(s.take(i + 1)).len() > 0,
        arm_trees(s.take(i + 1)).drop_last() == arm_trees(s.take(i)),
        arm_trees(s.take(i + 1)).last() == expr_tree(s[i].body),
{
    assert(s.take(i + 1).drop_last() =~= s.take(i));
    assert(arm_trees(s.take(i + 1)).drop_last() =~= arm_trees(s.take(i)));
}

proof fn lemma_arm_trees_push(s: Seq<TypedMatchArm>, x: TypedMatchArm)
    ensures
        arm_trees(s.push(x)) == arm_trees(s).push(expr_tree(x.body)),
{
    assert(s.push(x).drop_last() =~= s);
}

proof fn lemma_pattern_views_at(s: Seq<TypedPattern>)
    ensures
        pattern_views(s).len() == s.len(),
        forall|i: int| 0 <= i < s.len() ==> (#[trigger] pattern_views(s)[i]) == pattern_view(s[i]),
    decreases s.len(),
{
    if s.len() > 0 {
        lemma_pattern_views_at(s.drop_last());
        assert forall|i: int| 0 <= i < s.len() implies (#[trigger] pattern_views(s)[i])
            == pattern_view(s[i]) by {
            if i < s.len() - 1 {
                assert(pattern_views(s)[i] == pattern_views(s.drop_last())[i]);
            }
        }
    }
}

} // verus!
