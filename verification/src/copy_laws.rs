//! What a copy of a generic function keeps, and what it replaces.
use vstd::prelude::*;

use crate::mono_laws::renamed;
use crate::mono_spec::{
    alphanumeric, choices, chosen_captures, chosen_node, chosen_params, chosen_pattern, chosen_patterns, chosen_type, chosen_types, copied, find_made, first_free, fresh_name, fresh_vars, instantiate, law_choosing_removes_binders, lemma_node_stays, mangled_name, name_parts, original, resolved, retarget, sanitized, scheme_of, walk, walk_all, MadeView, ModeView, MonoEnv, MonoState,
};
use crate::name_table::lookup;
use crate::symbol::{SymbolId, SymbolView};
use crate::tree::{CaptureView, FnView, Node, ParamView, PatternView, Tree};
use crate::typedb::{fill_params, fill_params_list, first_var, DbView};
use crate::types::{occurs, occurs_list, Type, TypeList};

verus! {

// ---------------------------------------------------------------------------
// Every type a tree carries
// ---------------------------------------------------------------------------

/// The types in a pattern, from the outside in and from left to right.
pub open spec fn pattern_types(p: PatternView) -> Seq<Type>
    decreases p,
{
    match p {
        PatternView::Wildcard => Seq::empty(),
        PatternView::Lit(_, ty) => seq![ty],
        PatternView::Bind(_, _, ty, _) => seq![ty],
        PatternView::EnumVariant(_, _, subs, ty) => seq![ty] + patterns_types(subs),
        PatternView::Tuple(subs, ty) => seq![ty] + patterns_types(subs),
        PatternView::Record(_, subs, ty) => seq![ty] + patterns_types(subs),
    }
}

pub open spec fn patterns_types(ps: Seq<PatternView>) -> Seq<Type>
    decreases ps,
{
    if ps.len() == 0 {
        Seq::empty()
    } else {
        patterns_types(ps.drop_last()) + pattern_types(ps.last())
    }
}

pub open spec fn param_types(ps: Seq<ParamView>) -> Seq<Type> {
    ps.map_values(|p: ParamView| p.ty)
}

pub open spec fn capture_types(cs: Seq<CaptureView>) -> Seq<Type> {
    cs.map_values(|c: CaptureView| c.ty)
}

/// The types a node carries itself, besides its own.
pub open spec fn node_types(n: Node) -> Seq<Type> {
    match n {
        Node::For(p, item) => pattern_types(p) + seq![item],
        Node::Call(_, _, args, _) => args,
        Node::Match(ps) => patterns_types(ps),
        Node::Closure(params, captures, fn_type, _) => param_types(params) + capture_types(captures)
            + seq![fn_type],
        _ => Seq::empty(),
    }
}

/// Every type in a tree.
pub open spec fn tree_types(t: Tree) -> Seq<Type>
    decreases t, 1nat,
{
    seq![t.ty] + node_types(t.node) + trees_types(t.kids)
}

pub open spec fn trees_types(ts: Seq<Tree>) -> Seq<Type>
    decreases ts, 0nat,
{
    if ts.len() == 0 {
        Seq::empty()
    } else {
        trees_types(ts.drop_last()) + tree_types(ts.last())
    }
}

/// Every type in a function.
pub open spec fn fn_types(f: FnView) -> Seq<Type> {
    seq![f.fn_type, f.return_type] + param_types(f.params) + tree_types(f.body)
}

// ---------------------------------------------------------------------------
// A tree without its types
// ---------------------------------------------------------------------------

pub open spec fn bare_pattern(p: PatternView) -> PatternView
    decreases p,
{
    match p {
        PatternView::Wildcard => p,
        PatternView::Lit(v, _) => PatternView::Lit(v, Type::Unit),
        PatternView::Bind(s, n, _, span) => PatternView::Bind(s, n, Type::Unit, span),
        PatternView::EnumVariant(d, i, subs, _) => PatternView::EnumVariant(
            d,
            i,
            bare_patterns(subs),
            Type::Unit,
        ),
        PatternView::Tuple(subs, _) => PatternView::Tuple(bare_patterns(subs), Type::Unit),
        PatternView::Record(d, subs, _) => PatternView::Record(d, bare_patterns(subs), Type::Unit),
    }
}

pub open spec fn bare_patterns(ps: Seq<PatternView>) -> Seq<PatternView>
    decreases ps,
{
    if ps.len() == 0 {
        Seq::empty()
    } else {
        bare_patterns(ps.drop_last()).push(bare_pattern(ps.last()))
    }
}

pub open spec fn bare_node(n: Node) -> Node {
    match n {
        Node::For(p, _) => Node::For(bare_pattern(p), Type::Unit),
        Node::Call(callee, name, args, by_value) => Node::Call(
            callee,
            name,
            args.map_values(|t: Type| Type::Unit),
            by_value,
        ),
        Node::Match(ps) => Node::Match(bare_patterns(ps)),
        Node::Closure(params, captures, _, name) => Node::Closure(
            params.map_values(|p: ParamView| ParamView { ty: Type::Unit, ..p }),
            captures.map_values(|c: CaptureView| CaptureView { ty: Type::Unit, ..c }),
            Type::Unit,
            name,
        ),
        _ => n,
    }
}

/// A tree with every type forgotten: what it does, as it is written.
pub open spec fn bare(t: Tree) -> Tree
    decreases t, 1nat,
{
    Tree { node: bare_node(t.node), ty: Type::Unit, span: t.span, kids: bare_all(t.kids) }
}

pub open spec fn bare_all(ts: Seq<Tree>) -> Seq<Tree>
    decreases ts, 0nat,
{
    if ts.len() == 0 {
        Seq::empty()
    } else {
        bare_all(ts.drop_last()).push(bare(ts.last()))
    }
}

// ---------------------------------------------------------------------------
// What choosing does
// ---------------------------------------------------------------------------

/// The types `ts` at the choices `args` for `binders`.
pub open spec fn filled(db: DbView, binders: Seq<u32>, args: Seq<Type>, ts: Seq<Type>) -> Seq<Type> {
    ts.map_values(|t: Type| fill_params(db.resolve(t), binders, args))
}

proof fn lemma_filled_append(
    db: DbView,
    binders: Seq<u32>,
    args: Seq<Type>,
    a: Seq<Type>,
    b: Seq<Type>,
)
    ensures
        filled(db, binders, args, a + b) == filled(db, binders, args, a) + filled(
            db,
            binders,
            args,
            b,
        ),
{
    assert(filled(db, binders, args, a + b) =~= filled(db, binders, args, a) + filled(
        db,
        binders,
        args,
        b,
    ));
}

proof fn lemma_pattern(db: DbView, binders: Seq<u32>, args: Seq<Type>, p: PatternView)
    ensures
        pattern_types(chosen_pattern(db, ModeView::Choose(binders, args), p)) == filled(
            db,
            binders,
            args,
            pattern_types(p),
        ),
        bare_pattern(chosen_pattern(db, ModeView::Choose(binders, args), p)) == bare_pattern(p),
    decreases p, 0nat,
{
    let m = ModeView::Choose(binders, args);
    match p {
        PatternView::Wildcard => {
            assert(pattern_types(p) =~= filled(db, binders, args, pattern_types(p)));
        },
        PatternView::Lit(_, ty) | PatternView::Bind(_, _, ty, _) => {
            assert(seq![chosen_type(db, m, ty)] =~= filled(db, binders, args, seq![ty]));
        },
        PatternView::EnumVariant(_, _, subs, ty)
        | PatternView::Tuple(subs, ty)
        | PatternView::Record(_, subs, ty) => {
            lemma_patterns(db, binders, args, subs);
            lemma_filled_append(db, binders, args, seq![ty], patterns_types(subs));
            assert(seq![chosen_type(db, m, ty)] =~= filled(db, binders, args, seq![ty]));
        },
    }
}

proof fn lemma_patterns(db: DbView, binders: Seq<u32>, args: Seq<Type>, ps: Seq<PatternView>)
    ensures
        patterns_types(chosen_patterns(db, ModeView::Choose(binders, args), ps)) == filled(
            db,
            binders,
            args,
            patterns_types(ps),
        ),
        bare_patterns(chosen_patterns(db, ModeView::Choose(binders, args), ps)) == bare_patterns(
            ps,
        ),
    decreases ps, 0nat,
{
    let m = ModeView::Choose(binders, args);
    if ps.len() > 0 {
        lemma_patterns(db, binders, args, ps.drop_last());
        lemma_pattern(db, binders, args, ps.last());
        lemma_filled_append(
            db,
            binders,
            args,
            patterns_types(ps.drop_last()),
            pattern_types(ps.last()),
        );
        let front = chosen_patterns(db, m, ps.drop_last());
        let last = chosen_pattern(db, m, ps.last());
        assert(front.push(last).drop_last() =~= front);
    } else {
        assert(patterns_types(ps) =~= filled(db, binders, args, patterns_types(ps)));
    }
}

proof fn lemma_node(db: DbView, binders: Seq<u32>, args: Seq<Type>, n: Node)
    ensures
        node_types(chosen_node(db, ModeView::Choose(binders, args), n)) == filled(
            db,
            binders,
            args,
            node_types(n),
        ),
        bare_node(chosen_node(db, ModeView::Choose(binders, args), n)) == bare_node(n),
{
    let m = ModeView::Choose(binders, args);
    match n {
        Node::For(p, item) => {
            lemma_pattern(db, binders, args, p);
            lemma_filled_append(db, binders, args, pattern_types(p), seq![item]);
            assert(seq![chosen_type(db, m, item)] =~= filled(db, binders, args, seq![item]));
        },
        Node::Call(_, _, ts, _) => {
            let after = chosen_types(db, m, ts);
            assert(after =~= filled(db, binders, args, ts));
            assert(after.map_values(|t: Type| Type::Unit) =~= ts.map_values(|t: Type| Type::Unit));
        },
        Node::Match(ps) => lemma_patterns(db, binders, args, ps),
        Node::Closure(params, captures, fn_type, _) => {
            let ps = chosen_params(db, m, params);
            let cs = chosen_captures(db, m, captures);
            assert(param_types(ps) =~= filled(db, binders, args, param_types(params)));
            assert(capture_types(cs) =~= filled(db, binders, args, capture_types(captures)));
            lemma_filled_append(
                db,
                binders,
                args,
                param_types(params) + capture_types(captures),
                seq![fn_type],
            );
            lemma_filled_append(db, binders, args, param_types(params), capture_types(captures));
            assert(seq![chosen_type(db, m, fn_type)] =~= filled(db, binders, args, seq![fn_type]));
            assert(ps.map_values(|p: ParamView| ParamView { ty: Type::Unit, ..p })
                =~= params.map_values(|p: ParamView| ParamView { ty: Type::Unit, ..p }));
            assert(cs.map_values(|c: CaptureView| CaptureView { ty: Type::Unit, ..c })
                =~= captures.map_values(|c: CaptureView| CaptureView { ty: Type::Unit, ..c }));
        },
        _ => {
            assert(node_types(n) =~= filled(db, binders, args, node_types(n)));
        },
    }
}

/// A walk that chooses replaces every type there is in a tree, each by itself at
/// the choices, and changes nothing else.
pub proof fn law_choosing_replaces_every_type(
    env: MonoEnv,
    binders: Seq<u32>,
    args: Seq<Type>,
    depth: nat,
    t: Tree,
    st: MonoState,
)
    ensures
        ({
            let (after, s) = walk(env, ModeView::Choose(binders, args), depth, t, st);
            &&& tree_types(after) == filled(st.db, binders, args, tree_types(t))
            &&& bare(after) == bare(t)
            &&& s == st
        }),
    decreases t, 1nat,
{
    let m = ModeView::Choose(binders, args);
    let db = st.db;
    lemma_node(db, binders, args, t.node);
    lemma_kids(env, binders, args, depth, t.kids, st);
    assert(seq![chosen_type(db, m, t.ty)] =~= filled(db, binders, args, seq![t.ty]));
    lemma_filled_append(
        db,
        binders,
        args,
        seq![t.ty] + node_types(t.node),
        trees_types(t.kids),
    );
    lemma_filled_append(db, binders, args, seq![t.ty], node_types(t.node));
}

proof fn lemma_kids(
    env: MonoEnv,
    binders: Seq<u32>,
    args: Seq<Type>,
    depth: nat,
    ts: Seq<Tree>,
    st: MonoState,
)
    ensures
        ({
            let (after, s) = walk_all(env, ModeView::Choose(binders, args), depth, ts, st);
            &&& trees_types(after) == filled(st.db, binders, args, trees_types(ts))
            &&& bare_all(after) == bare_all(ts)
            &&& s == st
        }),
    decreases ts, 0nat,
{
    let m = ModeView::Choose(binders, args);
    if ts.len() > 0 {
        lemma_kids(env, binders, args, depth, ts.drop_last(), st);
        law_choosing_replaces_every_type(env, binders, args, depth, ts.last(), st);
        lemma_filled_append(
            st.db,
            binders,
            args,
            trees_types(ts.drop_last()),
            tree_types(ts.last()),
        );
        let front = walk_all(env, m, depth, ts.drop_last(), st).0;
        let last = walk(env, m, depth, ts.last(), st).0;
        assert(front.push(last).drop_last() =~= front);
    } else {
        assert(trees_types(ts) =~= filled(st.db, binders, args, trees_types(ts)));
    }
}

/// Sending calls to copies replaces no type.
pub proof fn law_retargeting_keeps_types(env: MonoEnv, depth: nat, t: Tree, st: MonoState)
    ensures
        tree_types(walk(env, ModeView::Retarget, depth, t, st).0) == tree_types(t),
    decreases t, 1nat,
{
    let (node, s1) = retarget(env, ModeView::Retarget, depth, t, st);
    lemma_node_stays(st.db, node);
    lemma_retargeting_keeps_types(env, depth, t.kids, s1);
}

proof fn lemma_retargeting_keeps_types(env: MonoEnv, depth: nat, ts: Seq<Tree>, st: MonoState)
    ensures
        trees_types(walk_all(env, ModeView::Retarget, depth, ts, st).0) == trees_types(ts),
    decreases ts, 0nat,
{
    if ts.len() > 0 {
        let (front, s1) = walk_all(env, ModeView::Retarget, depth, ts.drop_last(), st);
        lemma_retargeting_keeps_types(env, depth, ts.drop_last(), st);
        law_retargeting_keeps_types(env, depth, ts.last(), s1);
        let last = walk(env, ModeView::Retarget, depth, ts.last(), s1).0;
        assert(front.push(last).drop_last() =~= front);
    }
}

// ---------------------------------------------------------------------------
// Whole copies
// ---------------------------------------------------------------------------

/// Whether no type of a list mentions `v`.
pub open spec fn free_of(v: u32, ts: Seq<Type>) -> bool {
    forall|i: int| 0 <= i < ts.len() ==> !occurs(v, #[trigger] ts[i])
}

proof fn lemma_filled_is_free(
    db: DbView,
    binders: Seq<u32>,
    args: Seq<Type>,
    ts: Seq<Type>,
    v: u32,
)
    requires
        args.len() == binders.len(),
        first_var(binders, v) is Some,
        free_of(v, args),
    ensures
        free_of(v, filled(db, binders, args, ts)),
{
    let after = filled(db, binders, args, ts);
    assert forall|i: int| 0 <= i < after.len() implies !occurs(v, #[trigger] after[i]) by {
        law_choosing_removes_binders(db.resolve(ts[i]), binders, args, v);
    }
}

proof fn lemma_vars_len(db: DbView, n: nat)
    ensures
        fresh_vars(db, n).0.len() == n,
    decreases n,
{
    if n > 0 {
        lemma_vars_len(db, (n - 1) as nat);
    }
}

/// The copy made for a use: it has the function's symbol, its name, span,
/// parameters and, but for types and for the names of the copies it calls, its
/// body; and where what the use chooses mentions no binder, no type in it does.
pub proof fn law_copies_are_concrete(
    env: MonoEnv,
    depth: nat,
    callee: SymbolId,
    args: Seq<Type>,
    result: Type,
    st: MonoState,
    v: u32,
)
    requires
        copied(env, callee),
        find_made(
            st.made,
            callee,
            TypeList::of(resolved(st.db, args)),
            st.db.resolve(result),
        ) is None,
        first_var(scheme_of(env.names, callee)->0.binders, v) is Some,
        free_of(v, choices(st.db, scheme_of(env.names, callee)->0, args, result).0),
    ensures
        ({
            let (name, after) = instantiate(env, depth, callee, args, result, st);
            let copy = after.clones.last();
            let f = original(env.originals, callee)->0;
            &&& after.clones.len() > 0
            &&& copy.name == name
            &&& copy.symbol == f.symbol
            &&& copy.span == f.span
            &&& copy.params.map_values(|p: ParamView| ParamView { ty: Type::Unit, ..p })
                == f.params.map_values(|p: ParamView| ParamView { ty: Type::Unit, ..p })
            &&& exists|body: Tree| #[trigger] renamed(env, body, copy.body) && bare(body) == bare(
                f.body,
            )
            &&& free_of(v, fn_types(copy))
        }),
{
    let key_args = TypeList::of(resolved(st.db, args));
    let key_result = st.db.resolve(result);
    let base = mangled_name(env.names, callee, name_parts(st.db, args, result));
    let name = fresh_name(base, st.used);
    let new = MadeView { callee, args: key_args, result: key_result, name };
    let s1 = MonoState { made: st.made.push(new), used: st.used.push(name), ..st };
    let f = original(env.originals, callee)->0;
    let scheme = scheme_of(env.names, callee)->0;
    let binders = scheme.binders;
    let (chosen, db) = choices(s1.db, scheme, args, result);
    lemma_vars_len(s1.db, binders.len());
    let m = ModeView::Choose(binders, chosen);
    let s2 = MonoState { db, ..s1 };
    let (body, s3) = walk(env, m, depth, f.body, s2);
    let (retargeted, s4) = walk(env, ModeView::Retarget, depth, body, s3);
    law_choosing_replaces_every_type(env, binders, chosen, depth, f.body, s2);
    law_retargeting_keeps_types(env, depth, body, s3);
    crate::mono_laws::law_other_calls_stay(env, depth, body, s3);
    let copy = instantiate(env, depth, callee, args, result, st).1.clones.last();
    assert(copy.body == retargeted);
    assert(renamed(env, body, copy.body));
    let ps = copy.params;
    assert(ps.map_values(|p: ParamView| ParamView { ty: Type::Unit, ..p })
        =~= f.params.map_values(|p: ParamView| ParamView { ty: Type::Unit, ..p }));
    assert(param_types(ps) =~= filled(db, binders, chosen, param_types(f.params)));
    let tops = seq![f.fn_type, f.return_type];
    assert(seq![copy.fn_type, copy.return_type] =~= filled(db, binders, chosen, tops));
    lemma_filled_append(db, binders, chosen, tops, param_types(f.params));
    lemma_filled_append(
        db,
        binders,
        chosen,
        tops + param_types(f.params),
        tree_types(f.body),
    );
    assert(fn_types(copy) == filled(db, binders, chosen, fn_types(f)));
    lemma_filled_is_free(db, binders, chosen, fn_types(f), v);
}

// ---------------------------------------------------------------------------
// Filling
// ---------------------------------------------------------------------------

proof fn lemma_first_var(vars: Seq<u32>, v: u32)
    ensures
        match first_var(vars, v) {
            Some(i) => i < vars.len() && vars[i as int] == v && forall|j: int|
                0 <= j < i ==> vars[j] != v,
            None => !vars.contains(v),
        },
    decreases vars.len(),
{
    if vars.len() > 0 {
        lemma_first_var(vars.drop_last(), v);
        assert forall|j: int| 0 <= j < vars.len() - 1 implies vars.drop_last()[j] == vars[j] by {}
        if first_var(vars.drop_last(), v) is None && vars.last() != v {
            assert forall|j: int| 0 <= j < vars.len() implies vars[j] != v by {
                if j < vars.len() - 1 {
                    assert(vars.drop_last().contains(vars.drop_last()[j]));
                }
            }
        }
    }
}

/// Filling puts each choice in the place of its binder.
pub proof fn law_filling_puts_each_choice_in_place(binders: Seq<u32>, args: Seq<Type>, i: int)
    requires
        0 <= i < binders.len(),
        args.len() == binders.len(),
        binders.no_duplicates(),
    ensures
        fill_params(Type::Var(binders[i]), binders, args) == args[i],
{
    lemma_first_var(binders, binders[i]);
    if first_var(binders, binders[i]) is None {
        assert(binders.contains(binders[i]));
    }
}

/// A type that mentions no binder is not changed by filling.
pub proof fn law_filling_leaves_the_rest(t: Type, binders: Seq<u32>, args: Seq<Type>)
    requires
        forall|v: u32| #[trigger] binders.contains(v) ==> !occurs(v, t),
    ensures
        fill_params(t, binders, args) == t,
    decreases t,
{
    match t {
        Type::Var(v) => {
            lemma_first_var(binders, v);
            if let Some(i) = first_var(binders, v) {
                assert(binders.contains(binders[i as int]));
            }
        },
        Type::Collection(_, a) => lemma_filling_leaves(a, binders, args),
        Type::Func(p, r) => {
            assert forall|v: u32| #[trigger] binders.contains(v) implies !occurs(v, *r) by {}
            lemma_filling_leaves(p, binders, args);
            law_filling_leaves_the_rest(*r, binders, args);
        },
        Type::Tuple(a) => lemma_filling_leaves(a, binders, args),
        Type::Enum(_, a) => lemma_filling_leaves(a, binders, args),
        Type::Record(_, a) => lemma_filling_leaves(a, binders, args),
        _ => {},
    }
}

proof fn lemma_filling_leaves(l: TypeList, binders: Seq<u32>, args: Seq<Type>)
    requires
        forall|v: u32| #[trigger] binders.contains(v) ==> !occurs_list(v, l),
    ensures
        fill_params_list(l, binders, args) == l,
    decreases l,
{
    if let TypeList::Cons(h, t) = l {
        assert forall|v: u32| #[trigger] binders.contains(v) implies !occurs(v, *h) by {}
        assert forall|v: u32| #[trigger] binders.contains(v) implies !occurs_list(v, *t) by {}
        law_filling_leaves_the_rest(*h, binders, args);
        lemma_filling_leaves(*t, binders, args);
    }
}

// ---------------------------------------------------------------------------
// Names of copies
// ---------------------------------------------------------------------------

/// A copy's name begins with the name of the function it is a copy of, and goes
/// on with two underscores.
pub proof fn law_copies_are_named_after_their_function(
    names: Seq<SymbolView>,
    callee: SymbolId,
    parts: Seq<Seq<char>>,
    used: Seq<Seq<char>>,
)
    requires
        lookup(names, callee) is Some,
    ensures
        ({
            let own = lookup(names, callee)->0.name;
            let name = fresh_name(mangled_name(names, callee, parts), used);
            &&& name.len() > own.len() + 2
            &&& name.take(own.len() as int + 2) == own + "__"@
        }),
{
    reveal_strlit("__");
    reveal_strlit("__mono");
    let own = lookup(names, callee)->0.name;
    let base = mangled_name(names, callee, parts);
    assert(base.take(own.len() as int + 2) =~= own + "__"@);
    let n = first_free(base, used, 0, used.len());
    let name = fresh_name(base, used);
    assert(name.take(base.len() as int) =~= base);
    assert(name.take(own.len() as int + 2) =~= base.take(own.len() as int + 2));
}

/// What a type adds to a copy's name is as long as the type is written, and holds
/// only letters, numbers and underscores.
pub proof fn law_types_are_sanitized(s: Seq<char>, i: int)
    requires
        0 <= i < s.len(),
    ensures
        sanitized(s).len() == s.len(),
        alphanumeric(sanitized(s)[i]) || sanitized(s)[i] == '_',
        alphanumeric(s[i]) ==> sanitized(s)[i] == s[i],
{
}

} // verus!
