//! Which copies of generic functions a program needs, and what they are.
use vstd::prelude::*;

use crate::name_table::lookup;
use crate::pattern::shown;
use crate::source::{decimal_digits, lemma_decimal_injective, lemma_decimal_nonempty};
use crate::symbol::{SymbolId, SymbolView};
use crate::tree::{CaptureView, FnView, Node, ParamView, PatternView, Tree};
use crate::typedb::{
    fill_params, fill_params_list, first_var, fresh_spec, DbView, SchemeView,
};
use crate::types::{occurs, occurs_list, Type, TypeList};
use crate::unify::unify_spec;

verus! {

/// How deep copies may call for copies: deeper than there can be copies.
pub const NESTING: u128 = 0x1_0000_0000_0000_0000;

/// Whether a character is a letter or a number in Unicode's tables.
pub uninterp spec fn alphanumeric(c: char) -> bool;

/// Calls `char::is_alphanumeric`, whose answer for a character is fixed by
/// Unicode's tables: it is the one called `alphanumeric` here. Of ASCII, the
/// letters and digits are alphanumeric and nothing else is.
#[verifier::external_body]
pub(crate) fn is_alphanumeric(c: char) -> (r: bool)
    ensures
        r == alphanumeric(c),
        (c as u32) < 128 ==> r == ('a' <= c <= 'z' || 'A' <= c <= 'Z' || '0' <= c <= '9'),
{
    c.is_alphanumeric()
}

/// What a pass reads: the symbols, and the functions as they were written.
pub ghost struct MonoEnv {
    pub names: Seq<SymbolView>,
    pub originals: Seq<FnView>,
}

/// One copy: what it was made for, and its name.
pub ghost struct MadeView {
    pub callee: SymbolId,
    pub args: TypeList,
    pub result: Type,
    pub name: Seq<char>,
}

/// What a pass has come to.
pub ghost struct MonoState {
    pub db: DbView,
    pub made: Seq<MadeView>,
    pub used: Seq<Seq<char>>,
    pub clones: Seq<FnView>,
}

/// What a walk does to a tree.
pub ghost enum ModeView {
    /// Replaces each binder by the type chosen for it.
    Choose(Seq<u32>, Seq<Type>),
    /// Sends each call of a generic function to a copy.
    Retarget,
}

// ---------------------------------------------------------------------------
// Names
// ---------------------------------------------------------------------------

/// A text with everything but letters, numbers and `_` replaced by `_`.
pub open spec fn sanitized(s: Seq<char>) -> Seq<char> {
    s.map_values(
        |c: char|
            if alphanumeric(c) || c == '_' {
                c
            } else {
                '_'
            },
    )
}

/// The sanitized parts, with `_` between them.
pub open spec fn suffix(parts: Seq<Seq<char>>) -> Seq<char>
    decreases parts.len(),
{
    if parts.len() == 0 {
        Seq::empty()
    } else if parts.len() == 1 {
        sanitized(parts[0])
    } else {
        suffix(parts.drop_last()) + "_"@ + sanitized(parts.last())
    }
}

/// A copy's readable name.
pub open spec fn mangled_name(names: Seq<SymbolView>, callee: SymbolId, parts: Seq<Seq<char>>) -> Seq<
    char,
> {
    let base = match lookup(names, callee) {
        Some(s) => s.name,
        None => "fn"@ + decimal_digits(callee.0 as nat),
    };
    if suffix(parts).len() == 0 {
        base + "__mono"@
    } else {
        base + "__"@ + suffix(parts)
    }
}

/// The `n`th name tried for a base.
pub open spec fn candidate(base: Seq<char>, n: nat) -> Seq<char> {
    if n == 0 {
        base
    } else {
        base + "__"@ + decimal_digits(n)
    }
}

/// The first candidate from `n` on that is not taken, out of `tries` and one.
pub open spec fn first_free(base: Seq<char>, used: Seq<Seq<char>>, n: nat, tries: nat) -> nat
    decreases tries,
{
    if tries == 0 || !used.contains(candidate(base, n)) {
        n
    } else {
        first_free(base, used, n + 1, (tries - 1) as nat)
    }
}

/// A name that no copy has yet.
pub open spec fn fresh_name(base: Seq<char>, used: Seq<Seq<char>>) -> Seq<char> {
    candidate(base, first_free(base, used, 0, used.len()))
}

/// The types a copy is named after: its arguments', or its result's.
pub open spec fn name_parts(db: DbView, args: Seq<Type>, result: Type) -> Seq<Seq<char>> {
    if args.len() == 0 {
        seq![shown(db, db.resolve(result))]
    } else {
        args.map_values(|t: Type| shown(db, db.resolve(t)))
    }
}

proof fn lemma_candidates_differ(base: Seq<char>, a: nat, b: nat)
    requires
        candidate(base, a) == candidate(base, b),
    ensures
        a == b,
{
    reveal_strlit("__");
    let x = candidate(base, a);
    let y = candidate(base, b);
    lemma_decimal_nonempty(a);
    lemma_decimal_nonempty(b);
    if a > 0 && b > 0 {
        assert(x.subrange(base.len() as int + 2, x.len() as int) =~= decimal_digits(a));
        assert(y.subrange(base.len() as int + 2, y.len() as int) =~= decimal_digits(b));
        lemma_decimal_injective(a, b);
    } else if a > 0 {
        assert(x.len() > base.len());
    } else if b > 0 {
        assert(y.len() > base.len());
    }
}

proof fn lemma_first_free(base: Seq<char>, used: Seq<Seq<char>>, n: nat, tries: nat)
    requires
        n + tries == used.len(),
        forall|k: nat| k < n ==> used.contains(#[trigger] candidate(base, k)),
    ensures
        !used.contains(candidate(base, first_free(base, used, n, tries))),
    decreases tries,
{
    if used.contains(candidate(base, n)) {
        if tries == 0 {
            let cands = Seq::new(used.len() + 1, |k: int| candidate(base, k as nat));
            assert(cands.no_duplicates()) by {
                assert forall|i: int, j: int|
                    0 <= i < cands.len() && 0 <= j < cands.len() && i != j implies cands[i]
                    != cands[j] by {
                    if cands[i] == cands[j] {
                        lemma_candidates_differ(base, i as nat, j as nat);
                    }
                }
            }
            cands.unique_seq_to_set();
            used.lemma_cardinality_of_set();
            assert(cands.to_set().subset_of(used.to_set())) by {
                assert forall|x: Seq<char>| cands.to_set().contains(x) implies used.to_set().contains(
                    x,
                ) by {
                    let k = choose|k: int| 0 <= k < cands.len() && cands[k] == x;
                    assert(x == candidate(base, k as nat));
                    assert(used.contains(x));
                }
            }
            vstd::seq_lib::seq_to_set_is_finite(used);
            vstd::set_lib::lemma_len_subset(cands.to_set(), used.to_set());
            assert(false);
        } else {
            lemma_first_free(base, used, n + 1, (tries - 1) as nat);
        }
    }
}

/// A copy's name is never that of another copy, even where their types are
/// written alike.
pub proof fn law_copies_get_fresh_names(base: Seq<char>, used: Seq<Seq<char>>)
    ensures
        !used.contains(fresh_name(base, used)),
{
    lemma_first_free(base, used, 0, used.len());
}

// ---------------------------------------------------------------------------
// Types
// ---------------------------------------------------------------------------

/// A type under a walk.
pub open spec fn chosen_type(db: DbView, m: ModeView, t: Type) -> Type {
    match m {
        ModeView::Choose(binders, args) => fill_params(db.resolve(t), binders, args),
        ModeView::Retarget => t,
    }
}

pub open spec fn chosen_types(db: DbView, m: ModeView, ts: Seq<Type>) -> Seq<Type> {
    ts.map_values(|t: Type| chosen_type(db, m, t))
}

pub open spec fn chosen_pattern(db: DbView, m: ModeView, p: PatternView) -> PatternView
    decreases p, 0nat,
{
    match p {
        PatternView::Wildcard => PatternView::Wildcard,
        PatternView::Lit(v, ty) => PatternView::Lit(v, chosen_type(db, m, ty)),
        PatternView::Bind(s, n, ty, span) => PatternView::Bind(
            s,
            n,
            chosen_type(db, m, ty),
            span,
        ),
        PatternView::EnumVariant(d, i, subs, ty) => PatternView::EnumVariant(
            d,
            i,
            chosen_patterns(db, m, subs),
            chosen_type(db, m, ty),
        ),
        PatternView::Tuple(subs, ty) => PatternView::Tuple(
            chosen_patterns(db, m, subs),
            chosen_type(db, m, ty),
        ),
        PatternView::Record(d, subs, ty) => PatternView::Record(
            d,
            chosen_patterns(db, m, subs),
            chosen_type(db, m, ty),
        ),
    }
}

pub open spec fn chosen_patterns(db: DbView, m: ModeView, ps: Seq<PatternView>) -> Seq<PatternView>
    decreases ps, 0nat,
{
    if ps.len() == 0 {
        Seq::empty()
    } else {
        chosen_patterns(db, m, ps.drop_last()).push(chosen_pattern(db, m, ps.last()))
    }
}

pub open spec fn chosen_param(db: DbView, m: ModeView, p: ParamView) -> ParamView {
    ParamView { ty: chosen_type(db, m, p.ty), ..p }
}

pub open spec fn chosen_params(db: DbView, m: ModeView, ps: Seq<ParamView>) -> Seq<ParamView> {
    ps.map_values(|p: ParamView| chosen_param(db, m, p))
}

pub open spec fn chosen_capture(db: DbView, m: ModeView, c: CaptureView) -> CaptureView {
    CaptureView { ty: chosen_type(db, m, c.ty), ..c }
}

pub open spec fn chosen_captures(db: DbView, m: ModeView, cs: Seq<CaptureView>) -> Seq<CaptureView> {
    cs.map_values(|c: CaptureView| chosen_capture(db, m, c))
}

/// A node under a walk: every type it carries itself is replaced.
pub open spec fn chosen_node(db: DbView, m: ModeView, n: Node) -> Node {
    match n {
        Node::For(p, item) => Node::For(chosen_pattern(db, m, p), chosen_type(db, m, item)),
        Node::Call(callee, name, args, by_value) => Node::Call(
            callee,
            name,
            chosen_types(db, m, args),
            by_value,
        ),
        Node::Match(ps) => Node::Match(chosen_patterns(db, m, ps)),
        Node::Closure(params, captures, fn_type, name) => Node::Closure(
            chosen_params(db, m, params),
            chosen_captures(db, m, captures),
            chosen_type(db, m, fn_type),
            name,
        ),
        _ => n,
    }
}

// ---------------------------------------------------------------------------
// Copies
// ---------------------------------------------------------------------------

/// The scheme of a symbol.
pub open spec fn scheme_of(names: Seq<SymbolView>, id: SymbolId) -> Option<SchemeView> {
    match lookup(names, id) {
        Some(s) => s.scheme,
        None => None,
    }
}

pub open spec fn polymorphic(names: Seq<SymbolView>, id: SymbolId) -> bool {
    match scheme_of(names, id) {
        Some(s) => s.binders.len() > 0,
        None => false,
    }
}

/// The function a symbol names: the last one written for it.
pub open spec fn original(originals: Seq<FnView>, id: SymbolId) -> Option<FnView>
    decreases originals.len(),
{
    if originals.len() == 0 {
        None
    } else if originals.last().symbol == id {
        Some(originals.last())
    } else {
        original(originals.drop_last(), id)
    }
}

/// A symbol's function is one of the functions, and has the symbol.
pub proof fn lemma_original(originals: Seq<FnView>, id: SymbolId)
    ensures
        original(originals, id) matches Some(f) ==> f.symbol == id && originals.contains(f),
    decreases originals.len(),
{
    if originals.len() > 0 {
        lemma_original(originals.drop_last(), id);
        if originals.last().symbol == id {
            assert(originals[originals.len() - 1] == originals.last());
        } else if let Some(f) = original(originals.drop_last(), id) {
            let k = choose|k: int| 0 <= k < originals.len() - 1 && originals.drop_last()[k] == f;
            assert(originals[k] == f);
        }
    }
}

/// The copy already made for a use, by its place.
pub open spec fn find_made(made: Seq<MadeView>, callee: SymbolId, args: TypeList, result: Type) -> Option<
    Seq<char>,
>
    decreases made.len(),
{
    if made.len() == 0 {
        None
    } else {
        let m = made.last();
        if m.callee == callee && m.args == args && m.result == result {
            Some(m.name)
        } else {
            find_made(made.drop_last(), callee, args, result)
        }
    }
}

/// The parameters and the result of a function type; anything else is a result.
pub open spec fn func_shape(t: Type) -> (Seq<Type>, Type) {
    match t {
        Type::Func(ps, r) => (ps.seq(), *r),
        _ => (Seq::empty(), t),
    }
}

/// Unifies two types where they agree, and changes nothing where they do not.
pub open spec fn try_unify(db: DbView, a: Type, b: Type) -> DbView {
    match unify_spec(db.solution, a, b) {
        Some(solution) => DbView { solution, ..db },
        None => db,
    }
}

/// Unifies pairs from the front, as far as both lists go.
pub open spec fn unify_pairs(db: DbView, ps: Seq<Type>, ts: Seq<Type>, n: nat) -> DbView
    decreases n,
{
    if n == 0 || n > ps.len() || n > ts.len() {
        db
    } else {
        try_unify(unify_pairs(db, ps, ts, (n - 1) as nat), ps[n - 1], ts[n - 1])
    }
}

pub open spec fn shorter(a: nat, b: nat) -> nat {
    if a < b {
        a
    } else {
        b
    }
}

/// `n` variables that nothing mentions.
pub open spec fn fresh_vars(db: DbView, n: nat) -> (Seq<Type>, DbView)
    decreases n,
{
    if n == 0 {
        (Seq::empty(), db)
    } else {
        let (ts, d1) = fresh_vars(db, (n - 1) as nat);
        let (t, d2) = fresh_spec(d1);
        (ts.push(t), d2)
    }
}

/// What a use chooses for each binder: a copy of the scheme is unified with the
/// arguments and the result of the use.
pub open spec fn choices(db: DbView, s: SchemeView, args: Seq<Type>, result: Type) -> (
    Seq<Type>,
    DbView,
) {
    let (vars, d1) = fresh_vars(db, s.binders.len());
    let (params, r) = func_shape(d1.resolve(fill_params(s.body, s.binders, vars)));
    let d2 = unify_pairs(d1, params, args, shorter(params.len(), args.len()));
    let d3 = try_unify(d2, r, result);
    (vars.map_values(|v: Type| d3.resolve(v)), d3)
}

/// Resolved argument types: two uses are the same use exactly when these and
/// their resolved results are.
pub open spec fn resolved(db: DbView, ts: Seq<Type>) -> Seq<Type> {
    ts.map_values(|t: Type| db.resolve(t))
}

/// The copy of `callee` for a use, made if there is none yet.
pub open spec fn instantiate(
    env: MonoEnv,
    depth: nat,
    callee: SymbolId,
    args: Seq<Type>,
    result: Type,
    st: MonoState,
) -> (Seq<char>, MonoState)
    decreases 2 * depth + 1, result, 0nat,
{
    let key_args = TypeList::of(resolved(st.db, args));
    let key_result = st.db.resolve(result);
    match find_made(st.made, callee, key_args, key_result) {
        Some(name) => (name, st),
        None => {
            let base = mangled_name(env.names, callee, name_parts(st.db, args, result));
            let name = fresh_name(base, st.used);
            let s1 = MonoState {
                made: st.made.push(MadeView { callee, args: key_args, result: key_result, name }),
                used: st.used.push(name),
                ..st
            };
            match (original(env.originals, callee), scheme_of(env.names, callee)) {
                (Some(f), Some(scheme)) => {
                    let (chosen, db) = choices(s1.db, scheme, args, result);
                    let m = ModeView::Choose(scheme.binders, chosen);
                    let s2 = MonoState { db, ..s1 };
                    let (body, s3) = walk(env, m, depth, f.body, s2);
                    let (retargeted, s4) = walk(env, ModeView::Retarget, depth, body, s3);
                    let copy = FnView {
                        symbol: f.symbol,
                        name,
                        params: chosen_params(db, m, f.params),
                        return_type: chosen_type(db, m, f.return_type),
                        body: retargeted,
                        fn_type: chosen_type(db, m, f.fn_type),
                        span: f.span,
                    };
                    (name, MonoState { clones: s4.clones.push(copy), ..s4 })
                },
                _ => (name, s1),
            }
        },
    }
}

/// Whether a call of `callee` goes to a copy.
pub open spec fn copied(env: MonoEnv, callee: SymbolId) -> bool {
    polymorphic(env.names, callee) && original(env.originals, callee) is Some
}

/// A node's call, sent to a copy where it has to be.
pub open spec fn retarget(env: MonoEnv, m: ModeView, depth: nat, t: Tree, st: MonoState) -> (
    Node,
    MonoState,
)
    decreases 2 * depth, t, 0nat,
{
    match t.node {
        Node::Call(callee, _, args, by_value) => if m is Retarget && depth > 0 && copied(
            env,
            callee,
        ) {
            let (name, s1) = instantiate(env, (depth - 1) as nat, callee, args, t.ty, st);
            (Node::Call(callee, name, args, by_value), s1)
        } else {
            (t.node, st)
        },
        _ => (t.node, st),
    }
}

/// A whole tree under a walk, from the root down and from left to right.
pub open spec fn walk(env: MonoEnv, m: ModeView, depth: nat, t: Tree, st: MonoState) -> (
    Tree,
    MonoState,
)
    decreases 2 * depth, t, 1nat,
{
    let (node, s1) = retarget(env, m, depth, t, st);
    let (kids, s2) = walk_all(env, m, depth, t.kids, s1);
    (
        Tree {
            node: chosen_node(st.db, m, node),
            ty: chosen_type(st.db, m, t.ty),
            span: t.span,
            kids,
        },
        s2,
    )
}

pub open spec fn walk_all(env: MonoEnv, m: ModeView, depth: nat, ts: Seq<Tree>, st: MonoState) -> (
    Seq<Tree>,
    MonoState,
)
    decreases 2 * depth, ts, 0nat,
{
    if ts.len() == 0 {
        (Seq::empty(), st)
    } else {
        let (before, s1) = walk_all(env, m, depth, ts.drop_last(), st);
        let (t, s2) = walk(env, m, depth, ts.last(), s1);
        (before.push(t), s2)
    }
}

/// The functions that stay: those with one type, their calls retargeted.
pub open spec fn kept(env: MonoEnv, items: Seq<FnView>, st: MonoState) -> (Seq<FnView>, MonoState)
    decreases items.len(),
{
    if items.len() == 0 {
        (Seq::empty(), st)
    } else {
        let (before, s1) = kept(env, items.drop_last(), st);
        let f = items.last();
        if polymorphic(env.names, f.symbol) {
            (before, s1)
        } else {
            let (body, s2) = walk(env, ModeView::Retarget, NESTING as nat, f.body, s1);
            (before.push(FnView { body, ..f }), s2)
        }
    }
}

/// A program without generic functions: those that stay, then the copies.
pub open spec fn mono_items(names: Seq<SymbolView>, items: Seq<FnView>, db: DbView) -> (
    Seq<FnView>,
    DbView,
) {
    let env = MonoEnv { names, originals: items };
    let st = MonoState { db, made: Seq::empty(), used: Seq::empty(), clones: Seq::empty() };
    let (stay, s1) = kept(env, items, st);
    (stay + s1.clones, s1.db)
}

/// Walking a list is walking its first part and then the rest.
pub proof fn lemma_walk_append(
    env: MonoEnv,
    m: ModeView,
    depth: nat,
    a: Seq<Tree>,
    b: Seq<Tree>,
    st: MonoState,
)
    ensures
        walk_all(env, m, depth, a + b, st) == ({
            let (x, s1) = walk_all(env, m, depth, a, st);
            let (y, s2) = walk_all(env, m, depth, b, s1);
            (x + y, s2)
        }),
    decreases b.len(),
{
    if b.len() == 0 {
        assert(a + b =~= a);
        let (x, s1) = walk_all(env, m, depth, a, st);
        assert(x + walk_all(env, m, depth, b, s1).0 =~= x);
    } else {
        assert((a + b).drop_last() =~= a + b.drop_last());
        lemma_walk_append(env, m, depth, a, b.drop_last(), st);
        let (x, s1) = walk_all(env, m, depth, a, st);
        let (y, s2) = walk_all(env, m, depth, b.drop_last(), s1);
        let (t, s3) = walk(env, m, depth, b.last(), s2);
        assert((x + y).push(t) =~= x + y.push(t));
    }
}

pub proof fn lemma_walk_one(env: MonoEnv, m: ModeView, depth: nat, t: Tree, st: MonoState)
    ensures
        walk_all(env, m, depth, seq![t], st) == ({
            let (x, s1) = walk(env, m, depth, t, st);
            (seq![x], s1)
        }),
{
    assert(seq![t].drop_last() =~= Seq::empty());
    let (x, s1) = walk(env, m, depth, t, st);
    assert(Seq::<Tree>::empty().push(x) =~= seq![x]);
    assert(walk_all(env, m, depth, Seq::empty(), st).0 =~= Seq::empty());
}

pub proof fn lemma_walk_two(env: MonoEnv, m: ModeView, depth: nat, a: Tree, b: Tree, st: MonoState)
    ensures
        walk_all(env, m, depth, seq![a, b], st) == ({
            let (x, s1) = walk(env, m, depth, a, st);
            let (y, s2) = walk(env, m, depth, b, s1);
            (seq![x, y], s2)
        }),
{
    assert(seq![a, b] =~= seq![a] + seq![b]);
    lemma_walk_append(env, m, depth, seq![a], seq![b], st);
    lemma_walk_one(env, m, depth, a, st);
    let (x, s1) = walk(env, m, depth, a, st);
    lemma_walk_one(env, m, depth, b, s1);
    let (y, s2) = walk(env, m, depth, b, s1);
    assert(seq![x] + seq![y] =~= seq![x, y]);
}

// ---------------------------------------------------------------------------
// Laws
// ---------------------------------------------------------------------------

pub open spec fn same_use(a: MadeView, b: MadeView) -> bool {
    a.callee == b.callee && a.args == b.args && a.result == b.result
}

/// Every copy has a name of its own and a use of its own.
pub open spec fn one_per_use(st: MonoState) -> bool {
    &&& forall|i: int| 0 <= i < st.made.len() ==> st.used.contains((#[trigger] st.made[i]).name)
    &&& forall|i: int, j: int|
        #![trigger st.made[i], st.made[j]]
        0 <= i < j < st.made.len() ==> st.made[i].name != st.made[j].name && !same_use(
            st.made[i],
            st.made[j],
        )
}

proof fn lemma_not_made(made: Seq<MadeView>, callee: SymbolId, args: TypeList, result: Type)
    requires
        find_made(made, callee, args, result) is None,
    ensures
        forall|i: int|
            0 <= i < made.len() ==> !((#[trigger] made[i]).callee == callee && made[i].args == args
                && made[i].result == result),
    decreases made.len(),
{
    if made.len() > 0 {
        lemma_not_made(made.drop_last(), callee, args, result);
        assert forall|i: int| 0 <= i < made.len() implies !((#[trigger] made[i]).callee == callee
            && made[i].args == args && made[i].result == result) by {
            if i < made.len() - 1 {
                assert(made[i] == made.drop_last()[i]);
            }
        }
    }
}

proof fn lemma_instantiate(
    env: MonoEnv,
    depth: nat,
    callee: SymbolId,
    args: Seq<Type>,
    result: Type,
    st: MonoState,
)
    requires
        one_per_use(st),
    ensures
        one_per_use(instantiate(env, depth, callee, args, result, st).1),
    decreases 2 * depth + 1, result, 0nat,
{
    let key_args = TypeList::of(resolved(st.db, args));
    let key_result = st.db.resolve(result);
    if find_made(st.made, callee, key_args, key_result) is None {
        let base = mangled_name(env.names, callee, name_parts(st.db, args, result));
        let name = fresh_name(base, st.used);
        let new = MadeView { callee, args: key_args, result: key_result, name };
        let s1 = MonoState { made: st.made.push(new), used: st.used.push(name), ..st };
        law_copies_get_fresh_names(base, st.used);
        lemma_not_made(st.made, callee, key_args, key_result);
        assert(one_per_use(s1)) by {
            assert forall|i: int| 0 <= i < s1.made.len() implies s1.used.contains(
                (#[trigger] s1.made[i]).name,
            ) by {
                if i < st.made.len() {
                    assert(st.used.contains(st.made[i].name));
                    let k = choose|k: int|
                        0 <= k < st.used.len() && st.used[k] == st.made[i].name;
                    assert(s1.used[k] == s1.made[i].name);
                } else {
                    assert(s1.used[st.used.len() as int] == name);
                }
            }
            assert forall|i: int, j: int|
                #![trigger s1.made[i], s1.made[j]]
                0 <= i < j < s1.made.len() implies s1.made[i].name != s1.made[j].name
                && !same_use(s1.made[i], s1.made[j]) by {
                assert(s1.made[i] == st.made[i]);
                if j < st.made.len() {
                    assert(s1.made[j] == st.made[j]);
                } else {
                    assert(st.used.contains(st.made[i].name));
                }
            }
        }
        match (original(env.originals, callee), scheme_of(env.names, callee)) {
            (Some(f), Some(scheme)) => {
                let (chosen, db) = choices(s1.db, scheme, args, result);
                let m = ModeView::Choose(scheme.binders, chosen);
                let s2 = MonoState { db, ..s1 };
                assert(one_per_use(s2));
                let (body, s3) = walk(env, m, depth, f.body, s2);
                lemma_walk(env, m, depth, f.body, s2);
                let (retargeted, s4) = walk(env, ModeView::Retarget, depth, body, s3);
                lemma_walk(env, ModeView::Retarget, depth, body, s3);
                let after = instantiate(env, depth, callee, args, result, st).1;
                assert(after.made == s4.made && after.used == s4.used);
            },
            _ => {},
        }
    }
}

proof fn lemma_walk(env: MonoEnv, m: ModeView, depth: nat, t: Tree, st: MonoState)
    requires
        one_per_use(st),
    ensures
        one_per_use(walk(env, m, depth, t, st).1),
    decreases 2 * depth, t, 1nat,
{
    let (node, s1) = retarget(env, m, depth, t, st);
    match t.node {
        Node::Call(callee, _, args, _) => if m is Retarget && depth > 0 && copied(env, callee) {
            lemma_instantiate(env, (depth - 1) as nat, callee, args, t.ty, st);
        },
        _ => {},
    }
    lemma_walk_all(env, m, depth, t.kids, s1);
}

proof fn lemma_walk_all(env: MonoEnv, m: ModeView, depth: nat, ts: Seq<Tree>, st: MonoState)
    requires
        one_per_use(st),
    ensures
        one_per_use(walk_all(env, m, depth, ts, st).1),
    decreases 2 * depth, ts, 0nat,
{
    if ts.len() > 0 {
        lemma_walk_all(env, m, depth, ts.drop_last(), st);
        let (before, s1) = walk_all(env, m, depth, ts.drop_last(), st);
        lemma_walk(env, m, depth, ts.last(), s1);
    }
}

/// Two uses of a generic function share a copy exactly when they are the same
/// use: the copies of a whole program have pairwise different names and uses.
pub proof fn law_one_copy_per_use(env: MonoEnv, items: Seq<FnView>, st: MonoState)
    requires
        one_per_use(st),
    ensures
        one_per_use(kept(env, items, st).1),
    decreases items.len(),
{
    if items.len() > 0 {
        law_one_copy_per_use(env, items.drop_last(), st);
        let (before, s1) = kept(env, items.drop_last(), st);
        lemma_walk(env, ModeView::Retarget, NESTING as nat, items.last().body, s1);
    }
}

/// A use that has its copy gets that copy, and nothing is added.
pub proof fn law_a_use_keeps_its_copy(
    env: MonoEnv,
    depth: nat,
    callee: SymbolId,
    args: Seq<Type>,
    result: Type,
    st: MonoState,
    i: int,
)
    requires
        one_per_use(st),
        0 <= i < st.made.len(),
        st.made[i].callee == callee,
        st.made[i].args == TypeList::of(resolved(st.db, args)),
        st.made[i].result == st.db.resolve(result),
    ensures
        instantiate(env, depth, callee, args, result, st) == (st.made[i].name, st),
{
    lemma_found(st.made, i);
}

proof fn lemma_found(made: Seq<MadeView>, i: int)
    requires
        0 <= i < made.len(),
        forall|a: int, b: int|
            #![trigger made[a], made[b]]
            0 <= a < b < made.len() ==> !same_use(made[a], made[b]),
    ensures
        find_made(made, made[i].callee, made[i].args, made[i].result) == Some(made[i].name),
    decreases made.len(),
{
    if i < made.len() - 1 {
        assert(!same_use(made[i], made.last()));
        let rest = made.drop_last();
        assert forall|a: int, b: int|
            #![trigger rest[a], rest[b]]
            0 <= a < b < rest.len() implies !same_use(rest[a], rest[b]) by {
            assert(rest[a] == made[a] && rest[b] == made[b]);
        }
        lemma_found(rest, i);
    }
}

/// No generic function is left: what stays has one type, and keeps its name.
pub proof fn law_generic_functions_are_dropped(env: MonoEnv, items: Seq<FnView>, st: MonoState)
    ensures
        forall|i: int|
            0 <= i < kept(env, items, st).0.len() ==> !polymorphic(
                env.names,
                (#[trigger] kept(env, items, st).0[i]).symbol,
            ),
        kept(env, items, st).0.map_values(|f: FnView| f.name) == items.filter(
            |f: FnView| !polymorphic(env.names, f.symbol),
        ).map_values(|f: FnView| f.name),
    decreases items.len(),
{
    let one = |f: FnView| !polymorphic(env.names, f.symbol);
    let name = |f: FnView| f.name;
    reveal(Seq::filter);
    if items.len() > 0 {
        law_generic_functions_are_dropped(env, items.drop_last(), st);
        let (before, s1) = kept(env, items.drop_last(), st);
        let f = items.last();
        let all = kept(env, items, st).0;
        if one(f) {
            assert forall|i: int| 0 <= i < all.len() implies !polymorphic(
                env.names,
                (#[trigger] all[i]).symbol,
            ) by {
                if i < before.len() {
                    assert(all[i] == before[i]);
                }
            }
            assert(all.map_values(name) =~= before.map_values(name).push(f.name));
            assert(items.filter(one).map_values(name) =~= items.drop_last().filter(one).map_values(
                name,
            ).push(f.name));
        }
    } else {
        assert(kept(env, items, st).0.map_values(name) =~= items.filter(one).map_values(name));
    }
}

pub proof fn lemma_patterns_stay(db: DbView, p: PatternView)
    ensures
        chosen_pattern(db, ModeView::Retarget, p) == p,
    decreases p, 0nat,
{
    match p {
        PatternView::EnumVariant(_, _, subs, _) => lemma_pattern_lists_stay(db, subs),
        PatternView::Tuple(subs, _) => lemma_pattern_lists_stay(db, subs),
        PatternView::Record(_, subs, _) => lemma_pattern_lists_stay(db, subs),
        _ => {},
    }
}

proof fn lemma_pattern_lists_stay(db: DbView, ps: Seq<PatternView>)
    ensures
        chosen_patterns(db, ModeView::Retarget, ps) == ps,
    decreases ps, 0nat,
{
    if ps.len() > 0 {
        lemma_pattern_lists_stay(db, ps.drop_last());
        lemma_patterns_stay(db, ps.last());
        assert(ps.drop_last().push(ps.last()) =~= ps);
    } else {
        assert(ps =~= Seq::empty());
    }
}

pub proof fn lemma_node_stays(db: DbView, n: Node)
    ensures
        chosen_node(db, ModeView::Retarget, n) == n,
{
    let m = ModeView::Retarget;
    match n {
        Node::For(p, _) => lemma_patterns_stay(db, p),
        Node::Call(_, _, args, _) => {
            assert(chosen_types(db, m, args) =~= args);
        },
        Node::Match(ps) => lemma_pattern_lists_stay(db, ps),
        Node::Closure(params, captures, _, _) => {
            assert(chosen_params(db, m, params) =~= params);
            assert(chosen_captures(db, m, captures) =~= captures);
        },
        _ => {},
    }
}

pub proof fn lemma_tree_stays(env: MonoEnv, depth: nat, t: Tree, st: MonoState)
    requires
        forall|id: SymbolId| !#[trigger] copied(env, id),
    ensures
        walk(env, ModeView::Retarget, depth, t, st) == (t, st),
    decreases t, 1nat,
{
    lemma_node_stays(st.db, t.node);
    lemma_trees_stay(env, depth, t.kids, st);
}

proof fn lemma_trees_stay(env: MonoEnv, depth: nat, ts: Seq<Tree>, st: MonoState)
    requires
        forall|id: SymbolId| !#[trigger] copied(env, id),
    ensures
        walk_all(env, ModeView::Retarget, depth, ts, st) == (ts, st),
    decreases ts, 0nat,
{
    if ts.len() > 0 {
        lemma_trees_stay(env, depth, ts.drop_last(), st);
        lemma_tree_stays(env, depth, ts.last(), st);
        assert(ts.drop_last().push(ts.last()) =~= ts);
    } else {
        assert(ts =~= Seq::empty());
    }
}

proof fn lemma_items_stay(env: MonoEnv, items: Seq<FnView>, st: MonoState)
    requires
        forall|id: SymbolId| !#[trigger] copied(env, id),
        forall|i: int| 0 <= i < items.len() ==> !polymorphic(env.names, (#[trigger] items[i]).symbol),
    ensures
        kept(env, items, st) == (items, st),
    decreases items.len(),
{
    if items.len() > 0 {
        assert forall|i: int| 0 <= i < items.len() - 1 implies !polymorphic(
            env.names,
            (#[trigger] items.drop_last()[i]).symbol,
        ) by {
            assert(items.drop_last()[i] == items[i]);
        }
        lemma_items_stay(env, items.drop_last(), st);
        assert(!polymorphic(env.names, items[items.len() - 1].symbol));
        lemma_tree_stays(env, NESTING as nat, items.last().body, st);
        assert(items.drop_last().push(items.last()) =~= items);
    } else {
        assert(items =~= Seq::empty());
    }
}

/// A program without generic functions passes through unchanged.
pub proof fn law_a_program_without_generics_is_unchanged(
    names: Seq<SymbolView>,
    items: Seq<FnView>,
    db: DbView,
)
    requires
        forall|i: int| 0 <= i < items.len() ==> !polymorphic(names, (#[trigger] items[i]).symbol),
    ensures
        mono_items(names, items, db) == (items, db),
{
    let env = MonoEnv { names, originals: items };
    let st = MonoState { db, made: Seq::empty(), used: Seq::empty(), clones: Seq::empty() };
    assert forall|id: SymbolId| !#[trigger] copied(env, id) by {
        lemma_original(items, id);
    }
    lemma_items_stay(env, items, st);
    assert(items + st.clones =~= items);
}

/// What a copy is chosen at replaces every binder: where the choices mention
/// none, no type of the copy does.
pub proof fn law_choosing_removes_binders(
    t: Type,
    binders: Seq<u32>,
    args: Seq<Type>,
    v: u32,
)
    requires
        args.len() == binders.len(),
        first_var(binders, v) is Some,
        forall|i: int| 0 <= i < args.len() ==> !occurs(v, #[trigger] args[i]),
    ensures
        !occurs(v, fill_params(t, binders, args)),
    decreases t,
{
    match t {
        Type::Var(w) => {
            lemma_first_var_bound(binders, w);
        },
        Type::Collection(_, a) => lemma_choosing_list(a, binders, args, v),
        Type::Func(p, r) => {
            lemma_choosing_list(p, binders, args, v);
            law_choosing_removes_binders(*r, binders, args, v);
        },
        Type::Tuple(a) => lemma_choosing_list(a, binders, args, v),
        Type::Enum(_, a) => lemma_choosing_list(a, binders, args, v),
        Type::Record(_, a) => lemma_choosing_list(a, binders, args, v),
        _ => {},
    }
}

proof fn lemma_first_var_bound(vars: Seq<u32>, v: u32)
    ensures
        first_var(vars, v) matches Some(i) ==> i < vars.len(),
    decreases vars.len(),
{
    if vars.len() > 0 {
        lemma_first_var_bound(vars.drop_last(), v);
    }
}

proof fn lemma_choosing_list(l: TypeList, binders: Seq<u32>, args: Seq<Type>, v: u32)
    requires
        args.len() == binders.len(),
        first_var(binders, v) is Some,
        forall|i: int| 0 <= i < args.len() ==> !occurs(v, #[trigger] args[i]),
    ensures
        !occurs_list(v, fill_params_list(l, binders, args)),
    decreases l,
{
    match l {
        TypeList::Nil => {},
        TypeList::Cons(h, t) => {
            law_choosing_removes_binders(*h, binders, args, v);
            lemma_choosing_list(*t, binders, args, v);
        },
    }
}

} // verus!
