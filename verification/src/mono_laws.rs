//! Where the calls of a program without generic functions go.
use vstd::prelude::*;

use crate::mono_spec::{
    choices, copied, find_made, fresh_name, instantiate, kept, lemma_node_stays, lemma_original,
    mangled_name, mono_items, name_parts, original, resolved, retarget, scheme_of, walk,
    walk_all, MadeView, ModeView, MonoEnv, MonoState, NESTING,
};
use crate::symbol::{SymbolId, SymbolView};
use crate::tree::{FnView, Node, Tree};
use crate::typedb::DbView;
use crate::types::{Type, TypeList};

verus! {

// ---------------------------------------------------------------------------
// What is stated
// ---------------------------------------------------------------------------

/// Whether some function is called `name` and has the symbol.
pub open spec fn defined(items: Seq<FnView>, symbol: SymbolId, name: Seq<char>) -> bool {
    exists|i: int|
        0 <= i < items.len() && (#[trigger] items[i]).symbol == symbol && items[i].name == name
}

/// Whether a node, where it calls a generic function, calls one of `items`.
pub open spec fn node_lands(env: MonoEnv, items: Seq<FnView>, n: Node) -> bool {
    match n {
        Node::Call(callee, name, _, _) => copied(env, callee) ==> defined(items, callee, name),
        _ => true,
    }
}

/// Whether every call of a generic function in a tree is one of `items`.
pub open spec fn lands(env: MonoEnv, items: Seq<FnView>, t: Tree) -> bool
    decreases t, 1nat,
{
    node_lands(env, items, t.node) && all_land(env, items, t.kids)
}

pub open spec fn all_land(env: MonoEnv, items: Seq<FnView>, ts: Seq<Tree>) -> bool
    decreases ts, 0nat,
{
    ts.len() == 0 || (all_land(env, items, ts.drop_last()) && lands(env, items, ts.last()))
}

/// Whether every call of a generic function of `before` in the functions
/// `after` calls one of them.
pub open spec fn calls_land(names: Seq<SymbolView>, before: Seq<FnView>, after: Seq<FnView>) -> bool {
    forall|i: int|
        0 <= i < after.len() ==> lands(
            MonoEnv { names, originals: before },
            after,
            (#[trigger] after[i]).body,
        )
}

/// Whether a node is another but for the name of the generic function it calls.
pub open spec fn renamed_node(env: MonoEnv, a: Node, b: Node) -> bool {
    match a {
        Node::Call(callee, _, args, by_value) => if copied(env, callee) {
            b matches Node::Call(c, _, xs, v) && c == callee && xs == args && v == by_value
        } else {
            a == b
        },
        _ => a == b,
    }
}

/// Whether a tree is another but for the names of the generic functions it calls.
pub open spec fn renamed(env: MonoEnv, a: Tree, b: Tree) -> bool
    decreases a, 1nat,
{
    renamed_node(env, a.node, b.node) && a.ty == b.ty && a.span == b.span && all_renamed(
        env,
        a.kids,
        b.kids,
    )
}

pub open spec fn all_renamed(env: MonoEnv, a: Seq<Tree>, b: Seq<Tree>) -> bool
    decreases a, 0nat,
{
    if a.len() == 0 {
        b.len() == 0
    } else {
        b.len() > 0 && all_renamed(env, a.drop_last(), b.drop_last()) && renamed(
            env,
            a.last(),
            b.last(),
        )
    }
}

// ---------------------------------------------------------------------------
// Calls of copies that are known
// ---------------------------------------------------------------------------

/// Whether a copy of the name was made for the symbol.
pub open spec fn is_made(made: Seq<MadeView>, callee: SymbolId, name: Seq<char>) -> bool {
    exists|i: int|
        0 <= i < made.len() && (#[trigger] made[i]).callee == callee && made[i].name == name
}

pub open spec fn node_knows(env: MonoEnv, made: Seq<MadeView>, n: Node) -> bool {
    match n {
        Node::Call(callee, name, _, _) => copied(env, callee) ==> is_made(made, callee, name),
        _ => true,
    }
}

/// Whether every call of a generic function in a tree is of a copy that was made.
pub open spec fn knows(env: MonoEnv, made: Seq<MadeView>, t: Tree) -> bool
    decreases t, 1nat,
{
    node_knows(env, made, t.node) && all_know(env, made, t.kids)
}

pub open spec fn all_know(env: MonoEnv, made: Seq<MadeView>, ts: Seq<Tree>) -> bool
    decreases ts, 0nat,
{
    ts.len() == 0 || (all_know(env, made, ts.drop_last()) && knows(env, made, ts.last()))
}

/// Whether `b` is `a` with more copies made.
pub open spec fn more(a: Seq<MadeView>, b: Seq<MadeView>) -> bool {
    a.len() <= b.len() && forall|i: int| 0 <= i < a.len() ==> (#[trigger] b[i]) == a[i]
}

proof fn lemma_still_made(a: Seq<MadeView>, b: Seq<MadeView>, callee: SymbolId, name: Seq<char>)
    requires
        more(a, b),
        is_made(a, callee, name),
    ensures
        is_made(b, callee, name),
{
    let i = choose|i: int|
        0 <= i < a.len() && (#[trigger] a[i]).callee == callee && a[i].name == name;
    assert(b[i] == a[i]);
}

proof fn lemma_still_knows(env: MonoEnv, a: Seq<MadeView>, b: Seq<MadeView>, t: Tree)
    requires
        more(a, b),
        knows(env, a, t),
    ensures
        knows(env, b, t),
    decreases t, 1nat,
{
    if let Node::Call(callee, name, _, _) = t.node {
        if copied(env, callee) {
            lemma_still_made(a, b, callee, name);
        }
    }
    lemma_all_still_know(env, a, b, t.kids);
}

proof fn lemma_all_still_know(env: MonoEnv, a: Seq<MadeView>, b: Seq<MadeView>, ts: Seq<Tree>)
    requires
        more(a, b),
        all_know(env, a, ts),
    ensures
        all_know(env, b, ts),
    decreases ts, 0nat,
{
    if ts.len() > 0 {
        lemma_all_still_know(env, a, b, ts.drop_last());
        lemma_still_knows(env, a, b, ts.last());
    }
}

// ---------------------------------------------------------------------------
// What a walk does to what was made
// ---------------------------------------------------------------------------

/// Whether the copies of `b` are those of `a` and more, and every copy made
/// since is there.
pub open spec fn follows(a: MonoState, b: MonoState) -> bool {
    &&& more(a.made, b.made)
    &&& a.clones.len() <= b.clones.len()
    &&& b.made.len() - a.made.len() == b.clones.len() - a.clones.len()
    &&& forall|i: int| 0 <= i < a.clones.len() ==> (#[trigger] b.clones[i]) == a.clones[i]
    &&& forall|i: int|
        a.made.len() <= i < b.made.len() ==> defined(
            b.clones,
            (#[trigger] b.made[i]).callee,
            b.made[i].name,
        )
}

proof fn lemma_still_defined(a: Seq<FnView>, b: Seq<FnView>, symbol: SymbolId, name: Seq<char>)
    requires
        a.len() <= b.len(),
        forall|i: int| 0 <= i < a.len() ==> (#[trigger] b[i]) == a[i],
        defined(a, symbol, name),
    ensures
        defined(b, symbol, name),
{
    let i = choose|i: int|
        0 <= i < a.len() && (#[trigger] a[i]).symbol == symbol && a[i].name == name;
    assert(b[i] == a[i]);
}

proof fn lemma_follows(a: MonoState, b: MonoState, c: MonoState)
    requires
        follows(a, b),
        follows(b, c),
    ensures
        follows(a, c),
{
    assert forall|i: int| 0 <= i < a.made.len() implies (#[trigger] c.made[i]) == a.made[i] by {
        assert(b.made[i] == a.made[i]);
    }
    assert forall|i: int| 0 <= i < a.clones.len() implies (#[trigger] c.clones[i]) == a.clones[i] by {
        assert(b.clones[i] == a.clones[i]);
    }
    assert forall|i: int| a.made.len() <= i < c.made.len() implies defined(
        c.clones,
        (#[trigger] c.made[i]).callee,
        c.made[i].name,
    ) by {
        if i < b.made.len() {
            assert(c.made[i] == b.made[i]);
            lemma_still_defined(b.clones, c.clones, b.made[i].callee, b.made[i].name);
        }
    }
}

/// Whether the bodies of the copies call copies that were made.
pub open spec fn clones_know(env: MonoEnv, st: MonoState) -> bool {
    forall|i: int| 0 <= i < st.clones.len() ==> knows(env, st.made, (#[trigger] st.clones[i]).body)
}

proof fn lemma_clones_still_know(env: MonoEnv, a: MonoState, b: MonoState)
    requires
        clones_know(env, a),
        more(a.made, b.made),
        b.clones == a.clones,
    ensures
        clones_know(env, b),
{
    assert forall|i: int| 0 <= i < b.clones.len() implies knows(
        env,
        b.made,
        (#[trigger] b.clones[i]).body,
    ) by {
        lemma_still_knows(env, a.made, b.made, a.clones[i].body);
    }
}

proof fn lemma_found_is_made(made: Seq<MadeView>, callee: SymbolId, args: TypeList, result: Type)
    ensures
        find_made(made, callee, args, result) matches Some(name) ==> is_made(made, callee, name),
    decreases made.len(),
{
    if made.len() > 0 {
        let m = made.last();
        if m.callee == callee && m.args == args && m.result == result {
            assert(made[made.len() - 1] == m);
        } else {
            lemma_found_is_made(made.drop_last(), callee, args, result);
            if let Some(name) = find_made(made.drop_last(), callee, args, result) {
                lemma_still_made(made.drop_last(), made, callee, name);
            }
        }
    }
}

proof fn lemma_instantiate(
    env: MonoEnv,
    depth: nat,
    callee: SymbolId,
    args: Seq<Type>,
    result: Type,
    st: MonoState,
)
    requires
        copied(env, callee),
        clones_know(env, st),
        st.made.len() + 1 + depth >= NESTING,
        instantiate(env, depth, callee, args, result, st).1.made.len() < NESTING,
    ensures
        ({
            let (name, after) = instantiate(env, depth, callee, args, result, st);
            &&& follows(st, after)
            &&& clones_know(env, after)
            &&& is_made(after.made, callee, name)
        }),
    decreases 2 * depth + 1, result, 0nat,
{
    let key_args = TypeList::of(resolved(st.db, args));
    let key_result = st.db.resolve(result);
    let (out, after) = instantiate(env, depth, callee, args, result, st);
    lemma_found_is_made(st.made, callee, key_args, key_result);
    if find_made(st.made, callee, key_args, key_result) is None {
        let base = mangled_name(env.names, callee, name_parts(st.db, args, result));
        let name = fresh_name(base, st.used);
        let new = MadeView { callee, args: key_args, result: key_result, name };
        let f = original(env.originals, callee)->0;
        let scheme = scheme_of(env.names, callee)->0;
        lemma_original(env.originals, callee);
        let s1 = MonoState { made: st.made.push(new), used: st.used.push(name), ..st };
        let (chosen, db) = choices(s1.db, scheme, args, result);
        let m = ModeView::Choose(scheme.binders, chosen);
        let s2 = MonoState { db, ..s1 };
        let (body, s3) = walk(env, m, depth, f.body, s2);
        let (retargeted, s4) = walk(env, ModeView::Retarget, depth, body, s3);
        lemma_clones_still_know(env, st, s2);
        lemma_choosing_makes_nothing(env, m, depth, f.body, s2);
        assert(after.made == s4.made);
        assert(after.clones.drop_last() =~= s4.clones);
        lemma_walk(env, depth, body, s3);
        let copy = after.clones.last();
        assert(copy.symbol == callee && copy.name == name && copy.body == retargeted);
        assert(after.clones[s4.clones.len() as int] == copy);
        assert(s4.made[st.made.len() as int] == s3.made[st.made.len() as int]);
        assert(s3.made == s1.made);
        assert forall|i: int| 0 <= i < st.made.len() implies (#[trigger] after.made[i])
            == st.made[i] by {
            assert(s4.made[i] == s3.made[i]);
        }
        assert forall|i: int| st.made.len() <= i < after.made.len() implies defined(
            after.clones,
            (#[trigger] after.made[i]).callee,
            after.made[i].name,
        ) by {
            if i > st.made.len() {
                lemma_still_defined(
                    s4.clones,
                    after.clones,
                    s4.made[i].callee,
                    s4.made[i].name,
                );
            }
        }
        assert(follows(st, after));
        assert(clones_know(env, after)) by {
            assert forall|i: int| 0 <= i < after.clones.len() implies knows(
                env,
                after.made,
                (#[trigger] after.clones[i]).body,
            ) by {
                if i < s4.clones.len() {
                    assert(after.clones[i] == s4.clones[i]);
                }
            }
        }
        assert(after.made[st.made.len() as int] == new);
    }
}

/// Choosing types sends no call anywhere.
proof fn lemma_choosing_makes_nothing(
    env: MonoEnv,
    m: ModeView,
    depth: nat,
    t: Tree,
    st: MonoState,
)
    requires
        m is Choose,
    ensures
        walk(env, m, depth, t, st).1 == st,
    decreases t, 1nat,
{
    lemma_choosing_all_makes_nothing(env, m, depth, t.kids, st);
}

proof fn lemma_choosing_all_makes_nothing(
    env: MonoEnv,
    m: ModeView,
    depth: nat,
    ts: Seq<Tree>,
    st: MonoState,
)
    requires
        m is Choose,
    ensures
        walk_all(env, m, depth, ts, st).1 == st,
    decreases ts, 0nat,
{
    if ts.len() > 0 {
        lemma_choosing_all_makes_nothing(env, m, depth, ts.drop_last(), st);
        lemma_choosing_makes_nothing(env, m, depth, ts.last(), st);
    }
}

/// Nothing that was made is unmade.
proof fn lemma_instantiate_grows(
    env: MonoEnv,
    depth: nat,
    callee: SymbolId,
    args: Seq<Type>,
    result: Type,
    st: MonoState,
)
    ensures
        st.made.len() <= instantiate(env, depth, callee, args, result, st).1.made.len(),
    decreases 2 * depth + 1, result, 0nat,
{
    let key_args = TypeList::of(resolved(st.db, args));
    let key_result = st.db.resolve(result);
    if find_made(st.made, callee, key_args, key_result) is None {
        let base = mangled_name(env.names, callee, name_parts(st.db, args, result));
        let name = fresh_name(base, st.used);
        let new = MadeView { callee, args: key_args, result: key_result, name };
        let s1 = MonoState { made: st.made.push(new), used: st.used.push(name), ..st };
        match (original(env.originals, callee), scheme_of(env.names, callee)) {
            (Some(f), Some(scheme)) => {
                let (chosen, db) = choices(s1.db, scheme, args, result);
                let m = ModeView::Choose(scheme.binders, chosen);
                let s2 = MonoState { db, ..s1 };
                let (body, s3) = walk(env, m, depth, f.body, s2);
                lemma_walk_grows(env, m, depth, f.body, s2);
                lemma_walk_grows(env, ModeView::Retarget, depth, body, s3);
            },
            _ => {},
        }
    }
}

proof fn lemma_walk_grows(env: MonoEnv, m: ModeView, depth: nat, t: Tree, st: MonoState)
    ensures
        st.made.len() <= walk(env, m, depth, t, st).1.made.len(),
    decreases 2 * depth, t, 1nat,
{
    let (node, s1) = retarget(env, m, depth, t, st);
    if let Node::Call(callee, _, args, _) = t.node {
        if m is Retarget && depth > 0 && copied(env, callee) {
            lemma_instantiate_grows(env, (depth - 1) as nat, callee, args, t.ty, st);
        }
    }
    lemma_walk_all_grows(env, m, depth, t.kids, s1);
}

proof fn lemma_walk_all_grows(env: MonoEnv, m: ModeView, depth: nat, ts: Seq<Tree>, st: MonoState)
    ensures
        st.made.len() <= walk_all(env, m, depth, ts, st).1.made.len(),
    decreases 2 * depth, ts, 0nat,
{
    if ts.len() > 0 {
        lemma_walk_all_grows(env, m, depth, ts.drop_last(), st);
        let s1 = walk_all(env, m, depth, ts.drop_last(), st).1;
        lemma_walk_grows(env, m, depth, ts.last(), s1);
    }
}

proof fn lemma_walk(env: MonoEnv, depth: nat, t: Tree, st: MonoState)
    requires
        clones_know(env, st),
        st.made.len() + depth >= NESTING,
        walk(env, ModeView::Retarget, depth, t, st).1.made.len() < NESTING,
    ensures
        ({
            let (out, after) = walk(env, ModeView::Retarget, depth, t, st);
            &&& follows(st, after)
            &&& clones_know(env, after)
            &&& knows(env, after.made, out)
        }),
    decreases 2 * depth, t, 1nat,
{
    let m = ModeView::Retarget;
    let (node, s1) = retarget(env, m, depth, t, st);
    let (kids, s2) = walk_all(env, m, depth, t.kids, s1);
    lemma_walk_all_grows(env, m, depth, t.kids, s1);
    lemma_node_stays(st.db, node);
    if let Node::Call(callee, _, args, _) = t.node {
        if copied(env, callee) {
            lemma_walk_grows(env, m, depth, t, st);
            assert(depth > 0);
            lemma_instantiate(env, (depth - 1) as nat, callee, args, t.ty, st);
        }
    }
    lemma_walk_all(env, depth, t.kids, s1);
    lemma_follows(st, s1, s2);
    if let Node::Call(callee, name, _, _) = node {
        if copied(env, callee) {
            lemma_still_made(s1.made, s2.made, callee, name);
        }
    }
}

proof fn lemma_walk_all(env: MonoEnv, depth: nat, ts: Seq<Tree>, st: MonoState)
    requires
        clones_know(env, st),
        st.made.len() + depth >= NESTING,
        walk_all(env, ModeView::Retarget, depth, ts, st).1.made.len() < NESTING,
    ensures
        ({
            let (out, after) = walk_all(env, ModeView::Retarget, depth, ts, st);
            &&& follows(st, after)
            &&& clones_know(env, after)
            &&& all_know(env, after.made, out)
        }),
    decreases 2 * depth, ts, 0nat,
{
    let m = ModeView::Retarget;
    if ts.len() > 0 {
        let (before, s1) = walk_all(env, m, depth, ts.drop_last(), st);
        let (t, s2) = walk(env, m, depth, ts.last(), s1);
        lemma_walk_grows(env, m, depth, ts.last(), s1);
        lemma_walk_all(env, depth, ts.drop_last(), st);
        lemma_walk(env, depth, ts.last(), s1);
        lemma_follows(st, s1, s2);
        lemma_all_still_know(env, s1.made, s2.made, before);
        assert(before.push(t).drop_last() =~= before);
    }
}

// ---------------------------------------------------------------------------
// Whole programs
// ---------------------------------------------------------------------------

proof fn lemma_kept_grows(env: MonoEnv, items: Seq<FnView>, st: MonoState)
    ensures
        st.made.len() <= kept(env, items, st).1.made.len(),
    decreases items.len(),
{
    if items.len() > 0 {
        lemma_kept_grows(env, items.drop_last(), st);
        let s1 = kept(env, items.drop_last(), st).1;
        lemma_walk_grows(env, ModeView::Retarget, NESTING as nat, items.last().body, s1);
    }
}

proof fn lemma_kept(env: MonoEnv, items: Seq<FnView>, st: MonoState)
    requires
        clones_know(env, st),
        kept(env, items, st).1.made.len() < NESTING,
    ensures
        ({
            let (stay, after) = kept(env, items, st);
            &&& follows(st, after)
            &&& clones_know(env, after)
            &&& forall|i: int|
                0 <= i < stay.len() ==> knows(env, after.made, (#[trigger] stay[i]).body)
        }),
    decreases items.len(),
{
    if items.len() > 0 {
        let (before, s1) = kept(env, items.drop_last(), st);
        let (stay, s2) = kept(env, items, st);
        let depth = NESTING as nat;
        let f = items.last();
        lemma_walk_grows(env, ModeView::Retarget, depth, f.body, s1);
        lemma_kept(env, items.drop_last(), st);
        if !crate::mono_spec::polymorphic(env.names, f.symbol) {
            lemma_walk(env, depth, f.body, s1);
            lemma_follows(st, s1, s2);
            assert forall|i: int| 0 <= i < stay.len() implies knows(
                env,
                s2.made,
                (#[trigger] stay[i]).body,
            ) by {
                if i < before.len() {
                    assert(stay[i] == before[i]);
                    lemma_still_knows(env, s1.made, s2.made, before[i].body);
                }
            }
        }
    }
}

proof fn lemma_knowing_lands(env: MonoEnv, made: Seq<MadeView>, items: Seq<FnView>, t: Tree)
    requires
        knows(env, made, t),
        forall|i: int|
            0 <= i < made.len() ==> defined(items, (#[trigger] made[i]).callee, made[i].name),
    ensures
        lands(env, items, t),
    decreases t, 1nat,
{
    lemma_all_knowing_land(env, made, items, t.kids);
}

proof fn lemma_all_knowing_land(env: MonoEnv, made: Seq<MadeView>, items: Seq<FnView>, ts: Seq<Tree>)
    requires
        all_know(env, made, ts),
        forall|i: int|
            0 <= i < made.len() ==> defined(items, (#[trigger] made[i]).callee, made[i].name),
    ensures
        all_land(env, items, ts),
    decreases ts, 0nat,
{
    if ts.len() > 0 {
        lemma_all_knowing_land(env, made, items, ts.drop_last());
        lemma_knowing_lands(env, made, items, ts.last());
    }
}

/// Every call of a generic function has a target: it names one of the resulting
/// functions, which has the symbol that is called. No machine holds so many
/// functions that this would leave any out.
pub proof fn law_every_generic_call_has_a_target(
    names: Seq<SymbolView>,
    items: Seq<FnView>,
    db: DbView,
)
    requires
        mono_items(names, items, db).0.len() <= usize::MAX,
    ensures
        calls_land(names, items, mono_items(names, items, db).0),
{
    let env = MonoEnv { names, originals: items };
    let st = MonoState { db, made: Seq::empty(), used: Seq::empty(), clones: Seq::empty() };
    let (stay, after) = kept(env, items, st);
    let all = mono_items(names, items, db).0;
    lemma_kept_counts(env, items, st);
    lemma_kept(env, items, st);
    assert forall|i: int| 0 <= i < after.made.len() implies defined(
        all,
        (#[trigger] after.made[i]).callee,
        after.made[i].name,
    ) by {
        let (c, n) = (after.made[i].callee, after.made[i].name);
        let k = choose|k: int|
            0 <= k < after.clones.len() && (#[trigger] after.clones[k]).symbol == c
                && after.clones[k].name == n;
        assert(all[stay.len() + k] == after.clones[k]);
    }
    assert forall|i: int| 0 <= i < all.len() implies lands(env, all, (#[trigger] all[i]).body) by {
        if i < stay.len() {
            assert(all[i] == stay[i]);
        } else {
            assert(all[i] == after.clones[i - stay.len()]);
        }
        lemma_knowing_lands(env, after.made, all, all[i].body);
    }
}

/// A call of anything else is left alone: what stays is what it was but for the
/// names of the generic functions it calls.
pub proof fn law_other_calls_stay(env: MonoEnv, depth: nat, t: Tree, st: MonoState)
    ensures
        renamed(env, t, walk(env, ModeView::Retarget, depth, t, st).0),
    decreases t, 1nat,
{
    let (node, s1) = retarget(env, ModeView::Retarget, depth, t, st);
    lemma_node_stays(st.db, node);
    lemma_other_calls_stay(env, depth, t.kids, s1);
}

proof fn lemma_other_calls_stay(env: MonoEnv, depth: nat, ts: Seq<Tree>, st: MonoState)
    ensures
        all_renamed(env, ts, walk_all(env, ModeView::Retarget, depth, ts, st).0),
    decreases ts, 0nat,
{
    if ts.len() > 0 {
        let (before, s1) = walk_all(env, ModeView::Retarget, depth, ts.drop_last(), st);
        lemma_other_calls_stay(env, depth, ts.drop_last(), st);
        law_other_calls_stay(env, depth, ts.last(), s1);
        let t = walk(env, ModeView::Retarget, depth, ts.last(), s1).0;
        assert(before.push(t).drop_last() =~= before);
    }
}

// ---------------------------------------------------------------------------
// As many copies as were made
// ---------------------------------------------------------------------------

pub open spec fn counted(a: MonoState, b: MonoState) -> bool {
    b.made.len() - a.made.len() == b.clones.len() - a.clones.len()
}

proof fn lemma_instantiate_counts(
    env: MonoEnv,
    depth: nat,
    callee: SymbolId,
    args: Seq<Type>,
    result: Type,
    st: MonoState,
)
    requires
        copied(env, callee),
    ensures
        counted(st, instantiate(env, depth, callee, args, result, st).1),
    decreases 2 * depth + 1, result, 0nat,
{
    let key_args = TypeList::of(resolved(st.db, args));
    let key_result = st.db.resolve(result);
    if find_made(st.made, callee, key_args, key_result) is None {
        let base = mangled_name(env.names, callee, name_parts(st.db, args, result));
        let name = fresh_name(base, st.used);
        let new = MadeView { callee, args: key_args, result: key_result, name };
        let f = original(env.originals, callee)->0;
        let scheme = scheme_of(env.names, callee)->0;
        let s1 = MonoState { made: st.made.push(new), used: st.used.push(name), ..st };
        let (chosen, db) = choices(s1.db, scheme, args, result);
        let m = ModeView::Choose(scheme.binders, chosen);
        let s2 = MonoState { db, ..s1 };
        let (body, s3) = walk(env, m, depth, f.body, s2);
        lemma_walk_counts(env, m, depth, f.body, s2);
        lemma_walk_counts(env, ModeView::Retarget, depth, body, s3);
    }
}

proof fn lemma_walk_counts(env: MonoEnv, m: ModeView, depth: nat, t: Tree, st: MonoState)
    ensures
        counted(st, walk(env, m, depth, t, st).1),
    decreases 2 * depth, t, 1nat,
{
    let (node, s1) = retarget(env, m, depth, t, st);
    if let Node::Call(callee, _, args, _) = t.node {
        if m is Retarget && depth > 0 && copied(env, callee) {
            lemma_instantiate_counts(env, (depth - 1) as nat, callee, args, t.ty, st);
        }
    }
    lemma_walk_all_counts(env, m, depth, t.kids, s1);
}

proof fn lemma_walk_all_counts(env: MonoEnv, m: ModeView, depth: nat, ts: Seq<Tree>, st: MonoState)
    ensures
        counted(st, walk_all(env, m, depth, ts, st).1),
    decreases 2 * depth, ts, 0nat,
{
    if ts.len() > 0 {
        lemma_walk_all_counts(env, m, depth, ts.drop_last(), st);
        let s1 = walk_all(env, m, depth, ts.drop_last(), st).1;
        lemma_walk_counts(env, m, depth, ts.last(), s1);
    }
}

proof fn lemma_kept_counts(env: MonoEnv, items: Seq<FnView>, st: MonoState)
    ensures
        counted(st, kept(env, items, st).1),
    decreases items.len(),
{
    if items.len() > 0 {
        lemma_kept_counts(env, items.drop_last(), st);
        let s1 = kept(env, items.drop_last(), st).1;
        lemma_walk_counts(env, ModeView::Retarget, NESTING as nat, items.last().body, s1);
    }
}

} // verus!
