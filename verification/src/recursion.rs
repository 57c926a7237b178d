//! Which functions call themselves, directly or through others.
use vstd::prelude::*;

use crate::symbol::SymbolId;

verus! {

/// Calls, each by the caller and the function it calls.
pub type Calls = Seq<(SymbolId, SymbolId)>;

pub open spec fn calls(edges: Calls, a: SymbolId, b: SymbolId) -> bool {
    edges.contains((a, b))
}

/// Whether each function of a path calls the next.
pub open spec fn is_path(edges: Calls, path: Seq<SymbolId>) -> bool {
    path.len() >= 2 && forall|i: int|
        0 <= i < path.len() - 1 ==> calls(edges, #[trigger] path[i], path[i + 1])
}

/// Whether calling `a` can lead to a call of `b`.
pub open spec fn leads(edges: Calls, a: SymbolId, b: SymbolId) -> bool {
    exists|path: Seq<SymbolId>| #[trigger]
        is_path(edges, path) && path[0] == a && path.last() == b
}

/// How a function comes to call itself.
#[derive(Clone, Copy, Debug, PartialEq, Eq, Structural)]
pub enum Recursion {
    Never,
    Directly,
    /// Through a function that it calls.
    Through(SymbolId),
}

/// The first of the first `n` calls that `f` makes and that leads back to it.
pub open spec fn way_back(edges: Calls, f: SymbolId, n: nat) -> Option<SymbolId>
    decreases n,
{
    if n == 0 {
        None
    } else {
        match way_back(edges, f, (n - 1) as nat) {
            Some(c) => Some(c),
            None => if edges[n - 1].0 == f && leads(edges, edges[n - 1].1, f) {
                Some(edges[n - 1].1)
            } else {
                None
            },
        }
    }
}

pub open spec fn recursion_of(edges: Calls, f: SymbolId) -> Recursion {
    if calls(edges, f, f) {
        Recursion::Directly
    } else {
        match way_back(edges, f, edges.len()) {
            Some(c) => Recursion::Through(c),
            None => Recursion::Never,
        }
    }
}

// ---------------------------------------------------------------------------
// Following calls
// ---------------------------------------------------------------------------

proof fn lemma_one_call(edges: Calls, a: SymbolId, b: SymbolId)
    requires
        calls(edges, a, b),
    ensures
        leads(edges, a, b),
{
    let path = seq![a, b];
    assert(is_path(edges, path));
}

proof fn lemma_one_more(edges: Calls, a: SymbolId, b: SymbolId, c: SymbolId)
    requires
        leads(edges, a, b),
        calls(edges, b, c),
    ensures
        leads(edges, a, c),
{
    let path = choose|path: Seq<SymbolId>| #[trigger]
        is_path(edges, path) && path[0] == a && path.last() == b;
    let longer = path.push(c);
    assert forall|i: int| 0 <= i < longer.len() - 1 implies calls(
        edges,
        #[trigger] longer[i],
        longer[i + 1],
    ) by {
        if i < path.len() - 1 {
            assert(longer[i] == path[i] && longer[i + 1] == path[i + 1]);
            assert(calls(edges, path[i], path[i + 1]));
        }
    }
    assert(is_path(edges, longer));
}

/// Whether `seen` holds whatever a call of `a`, or of one of `seen`, calls.
spec fn closed(edges: Calls, a: SymbolId, seen: Seq<SymbolId>) -> bool {
    forall|k: int|
        0 <= k < edges.len() && ((#[trigger] edges[k]).0 == a || seen.contains(edges[k].0))
            ==> seen.contains(edges[k].1)
}

proof fn lemma_closed_holds_paths(edges: Calls, a: SymbolId, seen: Seq<SymbolId>, path: Seq<SymbolId>, i: int)
    requires
        closed(edges, a, seen),
        is_path(edges, path),
        path[0] == a,
        0 < i < path.len(),
    ensures
        seen.contains(path[i]),
    decreases i,
{
    if i > 1 {
        lemma_closed_holds_paths(edges, a, seen, path, i - 1);
    }
    assert(calls(edges, path[i - 1], path[i - 1 + 1]));
    let k = choose|k: int| 0 <= k < edges.len() && edges[k] == (path[i - 1], path[i]);
    assert(edges[k].1 == path[i]);
}

spec fn is_called(edges: Calls, f: SymbolId) -> bool {
    exists|k: int| 0 <= k < edges.len() && (#[trigger] edges[k]).1 == f
}

/// Different functions that are called are no more than the calls.
proof fn lemma_seen_fit(edges: Calls, seen: Seq<SymbolId>)
    requires
        seen.no_duplicates(),
        forall|j: int| 0 <= j < seen.len() ==> is_called(edges, #[trigger] seen[j]),
    ensures
        seen.len() <= edges.len(),
{
    let called = edges.map_values(|e: (SymbolId, SymbolId)| e.1);
    seen.unique_seq_to_set();
    called.lemma_cardinality_of_set();
    assert(seen.to_set().subset_of(called.to_set())) by {
        assert forall|x: SymbolId| seen.to_set().contains(x) implies called.to_set().contains(x) by {
            let j = choose|j: int| 0 <= j < seen.len() && seen[j] == x;
            assert(is_called(edges, seen[j]));
            let k = choose|k: int| 0 <= k < edges.len() && (#[trigger] edges[k]).1 == x;
            assert(called[k] == x);
        }
    }
    vstd::seq_lib::seq_to_set_is_finite(called);
    vstd::set_lib::lemma_len_subset(seen.to_set(), called.to_set());
}

fn holds(v: &Vec<SymbolId>, s: SymbolId) -> (r: bool)
    ensures
        r == v@.contains(s),
{
    let mut i: usize = 0;
    while i < v.len()
        invariant
            i <= v@.len(),
            forall|j: int| 0 <= j < i ==> v@[j] != s,
        decreases v@.len() - i,
    {
        if v[i] == s {
            assert(v@[i as int] == s);
            return true;
        }
        i += 1;
    }
    false
}

spec fn all_led(edges: Calls, a: SymbolId, seen: Seq<SymbolId>) -> bool {
    &&& seen.no_duplicates()
    &&& forall|j: int| 0 <= j < seen.len() ==> leads(edges, a, #[trigger] seen[j])
    &&& forall|j: int| 0 <= j < seen.len() ==> is_called(edges, #[trigger] seen[j])
}

/// Adds to `seen` what one more round of calls leads to.
fn follow(edges: &Vec<(SymbolId, SymbolId)>, a: SymbolId, seen: &mut Vec<SymbolId>)
    requires
        all_led(edges@, a, old(seen)@),
    ensures
        all_led(edges@, a, final(seen)@),
        final(seen)@.len() >= old(seen)@.len(),
        final(seen)@.len() == old(seen)@.len() ==> closed(edges@, a, final(seen)@),
{
    let n: usize = seen.len();
    let mut i: usize = 0;
    while i < edges.len()
        invariant
            i <= edges@.len(),
            n <= seen@.len(),
            all_led(edges@, a, seen@),
            seen@.len() == n ==> forall|k: int|
                0 <= k < i && ((#[trigger] edges@[k]).0 == a || seen@.contains(edges@[k].0))
                    ==> seen@.contains(edges@[k].1),
        decreases edges@.len() - i,
    {
        let (x, y) = edges[i];
        if (x == a || holds(seen, x)) && !holds(seen, y) {
            let ghost before = seen@;
            proof {
                assert(edges@[i as int] == (x, y));
                assert(calls(edges@, x, y));
                if x == a {
                    lemma_one_call(edges@, a, y);
                } else {
                    let j = choose|j: int| 0 <= j < seen@.len() && seen@[j] == x;
                    assert(leads(edges@, a, seen@[j]));
                    lemma_one_more(edges@, a, x, y);
                }
            }
            seen.push(y);
            proof {
                assert forall|j: int| 0 <= j < seen@.len() implies leads(
                    edges@,
                    a,
                    #[trigger] seen@[j],
                ) by {
                    if j < before.len() {
                        assert(seen@[j] == before[j]);
                    }
                }
                assert forall|j: int| 0 <= j < seen@.len() implies is_called(
                    edges@,
                    #[trigger] seen@[j],
                ) by {
                    if j < before.len() {
                        assert(seen@[j] == before[j]);
                    } else {
                        assert(edges@[i as int].1 == seen@[j]);
                    }
                }
                assert(seen@.no_duplicates());
            }
        }
        i += 1;
    }
}

/// Whether calling `a` can lead to a call of `b`.
pub fn does_lead(edges: &Vec<(SymbolId, SymbolId)>, a: SymbolId, b: SymbolId) -> (r: bool)
    ensures
        r == leads(edges@, a, b),
{
    let mut seen: Vec<SymbolId> = Vec::new();
    let mut more = true;
    while more
        invariant
            all_led(edges@, a, seen@),
            !more ==> closed(edges@, a, seen@),
        decreases edges@.len() - seen@.len() + if more { 1int } else { 0int },
    {
        let n: usize = seen.len();
        follow(edges, a, &mut seen);
        proof {
            lemma_seen_fit(edges@, seen@);
        }
        more = seen.len() > n;
    }
    let r = holds(&seen, b);
    proof {
        if r {
            let j = choose|j: int| 0 <= j < seen@.len() && seen@[j] == b;
            assert(leads(edges@, a, seen@[j]));
        }
        if leads(edges@, a, b) {
            let path = choose|path: Seq<SymbolId>| #[trigger]
                is_path(edges@, path) && path[0] == a && path.last() == b;
            lemma_closed_holds_paths(edges@, a, seen@, path, path.len() - 1);
        }
    }
    r
}

/// How a function comes to call itself.
pub fn find_recursion(edges: &Vec<(SymbolId, SymbolId)>, f: SymbolId) -> (r: Recursion)
    ensures
        r == recursion_of(edges@, f),
{
    let mut found: Option<SymbolId> = None;
    let mut direct = false;
    let mut i: usize = 0;
    while i < edges.len()
        invariant
            i <= edges@.len(),
            found == way_back(edges@, f, i as nat),
            direct == exists|k: int| 0 <= k < i && edges@[k] == (f, f),
        decreases edges@.len() - i,
    {
        let (x, y) = edges[i];
        if x == f {
            if y == f {
                assert(edges@[i as int] == (f, f));
                direct = true;
            }
            if found.is_none() && does_lead(edges, y, f) {
                found = Some(y);
            }
        }
        i += 1;
    }
    if direct {
        return Recursion::Directly;
    }
    match found {
        Some(c) => Recursion::Through(c),
        None => Recursion::Never,
    }
}

// ---------------------------------------------------------------------------
// Laws
// ---------------------------------------------------------------------------

proof fn lemma_way_back(edges: Calls, f: SymbolId, n: nat)
    requires
        n <= edges.len(),
    ensures
        way_back(edges, f, n) matches Some(c) ==> calls(edges, f, c) && leads(edges, c, f),
        way_back(edges, f, n) is None ==> forall|k: int|
            0 <= k < n && (#[trigger] edges[k]).0 == f ==> !leads(edges, edges[k].1, f),
    decreases n,
{
    if n > 0 {
        lemma_way_back(edges, f, (n - 1) as nat);
        if edges[n - 1].0 == f {
            assert(edges[n - 1] == (f, edges[n - 1].1));
        }
    }
}

/// A function counts as calling itself exactly when its calls lead back to it.
pub proof fn law_recursion_is_leading_back(edges: Calls, f: SymbolId)
    ensures
        recursion_of(edges, f) != Recursion::Never <==> leads(edges, f, f),
        recursion_of(edges, f) matches Recursion::Through(c) ==> calls(edges, f, c) && leads(
            edges,
            c,
            f,
        ) && !calls(edges, f, f),
{
    lemma_way_back(edges, f, edges.len());
    if calls(edges, f, f) {
        lemma_one_call(edges, f, f);
    } else if let Some(c) = way_back(edges, f, edges.len()) {
        let path = choose|path: Seq<SymbolId>| #[trigger]
            is_path(edges, path) && path[0] == c && path.last() == f;
        let longer = seq![f] + path;
        assert forall|i: int| 0 <= i < longer.len() - 1 implies calls(
            edges,
            #[trigger] longer[i],
            longer[i + 1],
        ) by {
            if i > 0 {
                assert(longer[i] == path[i - 1] && longer[i + 1] == path[i - 1 + 1]);
                assert(calls(edges, path[i - 1], path[i - 1 + 1]));
            }
        }
        assert(is_path(edges, longer));
    } else if leads(edges, f, f) {
        let path = choose|path: Seq<SymbolId>| #[trigger]
            is_path(edges, path) && path[0] == f && path.last() == f;
        assert(calls(edges, path[0], path[0int + 1]));
        let k = choose|k: int| 0 <= k < edges.len() && edges[k] == (f, path[1]);
        if path.len() > 2 {
            let rest = path.skip(1);
            assert forall|i: int| 0 <= i < rest.len() - 1 implies calls(
                edges,
                #[trigger] rest[i],
                rest[i + 1],
            ) by {
                assert(rest[i] == path[i + 1] && rest[i + 1] == path[i + 1 + 1]);
                assert(calls(edges, path[i + 1], path[i + 1 + 1]));
            }
            assert(is_path(edges, rest));
            assert(rest[0] == path[1] && rest.last() == f);
            assert(leads(edges, path[1], f));
        }
        assert(!leads(edges, edges[k].1, f));
    }
}

} // verus!
