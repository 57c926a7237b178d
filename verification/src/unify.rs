//! Solving equations between types.
use vstd::prelude::*;

use crate::types::{
    apply, apply_list, occurs, occurs_list, replace, replace_list, solved_form, Solution, Type,
    TypeList,
};

verus! {

/// How many variables a solution leaves open.
pub open spec fn unsolved(s: Solution) -> nat
    decreases s.len(),
{
    if s.len() == 0 {
        0
    } else {
        unsolved(s.drop_last()) + (if s.last() is None {
            1nat
        } else {
            0nat
        })
    }
}

pub open spec fn size(t: Type) -> nat
    decreases t,
{
    match t {
        Type::Collection(_, a) => 1 + size_list(a),
        Type::Func(p, r) => 1 + size_list(p) + size(*r),
        Type::Tuple(a) => 1 + size_list(a),
        Type::Enum(_, a) => 1 + size_list(a),
        Type::Record(_, a) => 1 + size_list(a),
        _ => 1,
    }
}

pub open spec fn size_list(l: TypeList) -> nat
    decreases l,
{
    match l {
        TypeList::Nil => 0,
        TypeList::Cons(h, t) => size(*h) + size_list(*t),
    }
}

/// The sum of the sizes of the left-hand sides.
pub open spec fn work_size(w: Seq<(Type, Type)>) -> nat
    decreases w.len(),
{
    if w.len() == 0 {
        0
    } else {
        work_size(w.drop_last()) + size(w.last().0)
    }
}

pub open spec fn same_len(x: TypeList, y: TypeList) -> bool
    decreases x,
{
    match (x, y) {
        (TypeList::Nil, TypeList::Nil) => true,
        (TypeList::Cons(_, x2), TypeList::Cons(_, y2)) => same_len(*x2, *y2),
        _ => false,
    }
}

/// `w` with the pairs of `x` and `y` on top, the first pair uppermost.
pub open spec fn zip_onto(x: TypeList, y: TypeList, w: Seq<(Type, Type)>) -> Seq<(Type, Type)>
    decreases x,
{
    match (x, y) {
        (TypeList::Cons(a, x2), TypeList::Cons(b, y2)) => zip_onto(*x2, *y2, w).push((*a, *b)),
        _ => w,
    }
}

pub open spec fn work_replace(w: Seq<(Type, Type)>, v: u32, u: Type) -> Seq<(Type, Type)> {
    Seq::new(w.len(), |i: int| (replace(w[i].0, v, u), replace(w[i].1, v, u)))
}

/// `s` with variable `v` solved to `u`, everywhere.
pub open spec fn bind(s: Solution, v: u32, u: Type) -> Solution {
    Seq::new(
        s.len(),
        |i: int|
            if i == v {
                Some(u)
            } else {
                match s[i] {
                    Some(t) => Some(replace(t, v, u)),
                    None => None,
                }
            },
    )
}

/// What one equation calls for.
pub ghost enum Step {
    /// The sides are the same type.
    Same,
    /// A variable takes the other side.
    Bind(u32, Type),
    /// The heads agree: the components are equated instead.
    Split(Seq<(Type, Type)>, TypeList, TypeList),
    /// The sides cannot be made equal.
    Clash,
}

pub open spec fn bind_step(s: Solution, v: u32, t: Type) -> Step {
    if v < s.len() && s[v as int] is None && !occurs(v, t) {
        Step::Bind(v, t)
    } else {
        Step::Clash
    }
}

pub open spec fn split_step(extra: Seq<(Type, Type)>, x: TypeList, y: TypeList) -> Step {
    if same_len(x, y) {
        Step::Split(extra, x, y)
    } else {
        Step::Clash
    }
}

pub open spec fn step(s: Solution, a: Type, b: Type) -> Step {
    if a == b {
        Step::Same
    } else {
        match (a, b) {
            (Type::Var(v), _) => bind_step(s, v, b),
            (_, Type::Var(v)) => bind_step(s, v, a),
            (Type::Collection(c, x), Type::Collection(d, y)) => if c == d {
                split_step(Seq::empty(), x, y)
            } else {
                Step::Clash
            },
            (Type::Func(x, r), Type::Func(y, q)) => split_step(seq![(*r, *q)], x, y),
            (Type::Tuple(x), Type::Tuple(y)) => split_step(Seq::empty(), x, y),
            (Type::Enum(c, x), Type::Enum(d, y)) => if c == d {
                split_step(Seq::empty(), x, y)
            } else {
                Step::Clash
            },
            (Type::Record(c, x), Type::Record(d, y)) => if c == d {
                split_step(Seq::empty(), x, y)
            } else {
                Step::Clash
            },
            _ => Step::Clash,
        }
    }
}

/// The solution of the equations `w`, the last one first, extending `s`.
pub open spec fn solve(s: Solution, w: Seq<(Type, Type)>) -> Option<Solution>
    decreases unsolved(s), work_size(w),
{
    if w.len() == 0 {
        Some(s)
    } else {
        let (a, b) = w.last();
        let rest = w.drop_last();
        match step(s, a, b) {
            Step::Same => {
                proof {
                    lemma_size_pos(a);
                }
                solve(s, rest)
            },
            Step::Bind(v, t) => {
                proof {
                    lemma_unsolved_bind(s, v, t);
                }
                solve(bind(s, v, t), work_replace(rest, v, t))
            },
            Step::Split(extra, x, y) => {
                proof {
                    lemma_split_size(s, a, b, rest);
                }
                solve(s, zip_onto(x, y, rest + extra))
            },
            Step::Clash => None,
        }
    }
}

/// The solution that makes `a` and `b` equal, extending `s`.
pub open spec fn unify_spec(s: Solution, a: Type, b: Type) -> Option<Solution> {
    solve(s, seq![(apply(s, a), apply(s, b))])
}

pub proof fn lemma_size_pos(t: Type)
    ensures
        size(t) >= 1,
{
}

pub proof fn lemma_unsolved_bind(s: Solution, v: u32, t: Type)
    requires
        v < s.len(),
        s[v as int] is None,
    ensures
        unsolved(bind(s, v, t)) < unsolved(s),
    decreases s.len(),
{
    let b = bind(s, v, t);
    if v as int == s.len() - 1 {
        lemma_unsolved_same(s.drop_last(), b.drop_last());
    } else {
        assert(b.drop_last() =~= bind(s.drop_last(), v, t));
        lemma_unsolved_bind(s.drop_last(), v, t);
    }
}

proof fn lemma_unsolved_same(s: Solution, r: Solution)
    requires
        s.len() == r.len(),
        forall|i: int| 0 <= i < s.len() ==> (s[i] is None <==> #[trigger] r[i] is None),
    ensures
        unsolved(s) == unsolved(r),
    decreases s.len(),
{
    if s.len() > 0 {
        assert(s.last() is None <==> r.last() is None);
        assert forall|i: int| 0 <= i < s.drop_last().len() implies (s.drop_last()[i] is None
            <==> #[trigger] r.drop_last()[i] is None) by {
            assert(r.drop_last()[i] == r[i]);
        }
        lemma_unsolved_same(s.drop_last(), r.drop_last());
    }
}

proof fn lemma_zip_size(x: TypeList, y: TypeList, w: Seq<(Type, Type)>)
    requires
        same_len(x, y),
    ensures
        work_size(zip_onto(x, y, w)) == size_list(x) + work_size(w),
    decreases x,
{
    match (x, y) {
        (TypeList::Cons(a, x2), TypeList::Cons(b, y2)) => {
            lemma_zip_size(*x2, *y2, w);
            let z = zip_onto(*x2, *y2, w);
            assert(z.push((*a, *b)).drop_last() =~= z);
        },
        _ => {},
    }
}

pub proof fn lemma_split_size(s: Solution, a: Type, b: Type, rest: Seq<(Type, Type)>)
    ensures
        step(s, a, b) matches Step::Split(extra, x, y) ==> work_size(
            zip_onto(x, y, rest + extra),
        ) < work_size(rest) + size(a),
{
    if let Step::Split(extra, x, y) = step(s, a, b) {
        lemma_zip_size(x, y, rest + extra);
        match (a, b) {
            (Type::Func(p, r), Type::Func(q, t)) => {
                assert((rest + extra).drop_last() =~= rest);
                assert((rest + extra).last() == (*r, *t));
            },
            _ => {
                assert(rest + extra =~= rest);
            },
        }
    }
}

// ---------------------------------------------------------------------------
// The solver
// ---------------------------------------------------------------------------

fn lists_match(x: &TypeList, y: &TypeList) -> (r: bool)
    ensures
        r == same_len(*x, *y),
    decreases x,
{
    match (x, y) {
        (TypeList::Nil, TypeList::Nil) => true,
        (TypeList::Cons(_, x2), TypeList::Cons(_, y2)) => lists_match(x2, y2),
        _ => false,
    }
}

fn push_pairs(x: &TypeList, y: &TypeList, w: &mut Vec<(Type, Type)>)
    ensures
        final(w)@ == zip_onto(*x, *y, old(w)@),
    decreases x,
{
    match (x, y) {
        (TypeList::Cons(a, x2), TypeList::Cons(b, y2)) => {
            push_pairs(x2, y2, w);
            w.push((a.dup(), b.dup()));
        },
        _ => {},
    }
}

fn bind_var(s: &mut Vec<Option<Type>>, w: &mut Vec<(Type, Type)>, v: u32, t: &Type)
    requires
        v < old(s)@.len(),
    ensures
        final(s)@ == bind(old(s)@, v, *t),
        final(w)@ == work_replace(old(w)@, v, *t),
{
    let mut i: usize = 0;
    let ghost s0 = s@;
    let ghost w0 = w@;
    while i < s.len()
        invariant
            i <= s@.len() == s0.len(),
            forall|j: int| 0 <= j < i ==> s@[j] == bind(s0, v, *t)[j],
            forall|j: int| i <= j < s@.len() ==> s@[j] == s0[j],
        decreases s@.len() - i,
    {
        let new: Option<Type> = if i == v as usize {
            Some(t.dup())
        } else {
            match &s[i] {
                Some(u) => Some(u.replaced(v, t)),
                None => None,
            }
        };
        s.set(i, new);
        i += 1;
    }
    assert(s@ =~= bind(s0, v, *t));
    let mut j: usize = 0;
    while j < w.len()
        invariant
            j <= w@.len() == w0.len(),
            forall|k: int| 0 <= k < j ==> w@[k] == work_replace(w0, v, *t)[k],
            forall|k: int| j <= k < w@.len() ==> w@[k] == w0[k],
        decreases w@.len() - j,
    {
        let new: (Type, Type) = (w[j].0.replaced(v, t), w[j].1.replaced(v, t));
        w.set(j, new);
        j += 1;
    }
    assert(w@ =~= work_replace(w0, v, *t));
}

/// Makes `a` and `b` equal, or answers `false` and leaves the solution alone.
pub fn unify(s: &mut Vec<Option<Type>>, a: &Type, b: &Type) -> (r: bool)
    ensures
        match unify_spec(old(s)@, *a, *b) {
            Some(next) => r && final(s)@ == next,
            None => !r && final(s)@ == old(s)@,
        },
{
    let mut cur: Vec<Option<Type>> = copy_solution(s);
    let mut work: Vec<(Type, Type)> = Vec::new();
    work.push((a.resolved(&cur), b.resolved(&cur)));
    assert(work@ =~= seq![(apply(s@, *a), apply(s@, *b))]);
    while work.len() > 0
        invariant
            s@ == old(s)@,
            solve(cur@, work@) == unify_spec(old(s)@, *a, *b),
        decreases unsolved(cur@), work_size(work@),
    {
        let ghost before = work@;
        let pair = work.pop();
        let (l, r) = match pair {
            Some(p) => p,
            None => {
                return false;
            },
        };
        assert(before.last() == (l, r));
        assert(work@ == before.drop_last());
        proof {
            lemma_size_pos(l);
            lemma_split_size(cur@, l, r, work@);
        }
        if l.same(&r) {
            continue;
        }
        let mut clash: bool = false;
        match (&l, &r) {
            (Type::Var(v), _) => {
                let v: u32 = *v;
                if (v as usize) < cur.len() && cur[v as usize].is_none() && !r.has_var(v) {
                    proof {
                        lemma_unsolved_bind(cur@, v, r);
                    }
                    bind_var(&mut cur, &mut work, v, &r);
                } else {
                    clash = true;
                }
            },
            (_, Type::Var(v)) => {
                let v: u32 = *v;
                if (v as usize) < cur.len() && cur[v as usize].is_none() && !l.has_var(v) {
                    proof {
                        lemma_unsolved_bind(cur@, v, l);
                    }
                    bind_var(&mut cur, &mut work, v, &l);
                } else {
                    clash = true;
                }
            },
            (Type::Collection(c, x), Type::Collection(d, y)) => {
                if *c == *d && lists_match(x, y) {
                    assert(work@ + Seq::empty() =~= work@);
                    push_pairs(x, y, &mut work);
                } else {
                    clash = true;
                }
            },
            (Type::Func(x, p), Type::Func(y, q)) => {
                if lists_match(x, y) {
                    let ghost rest = work@;
                    work.push((p.dup(), q.dup()));
                    assert(work@ =~= rest + seq![(**p, **q)]);
                    push_pairs(x, y, &mut work);
                } else {
                    clash = true;
                }
            },
            (Type::Tuple(x), Type::Tuple(y)) => {
                if lists_match(x, y) {
                    assert(work@ + Seq::empty() =~= work@);
                    push_pairs(x, y, &mut work);
                } else {
                    clash = true;
                }
            },
            (Type::Enum(c, x), Type::Enum(d, y)) => {
                if *c == *d && lists_match(x, y) {
                    assert(work@ + Seq::empty() =~= work@);
                    push_pairs(x, y, &mut work);
                } else {
                    clash = true;
                }
            },
            (Type::Record(c, x), Type::Record(d, y)) => {
                if *c == *d && lists_match(x, y) {
                    assert(work@ + Seq::empty() =~= work@);
                    push_pairs(x, y, &mut work);
                } else {
                    clash = true;
                }
            },
            _ => {
                clash = true;
            },
        }
        if clash {
            return false;
        }
    }
    *s = cur;
    true
}

/// A copy of a solution.
pub fn copy_solution(s: &Vec<Option<Type>>) -> (r: Vec<Option<Type>>)
    ensures
        r@ == s@,
{
    let mut out: Vec<Option<Type>> = Vec::new();
    let mut i: usize = 0;
    while i < s.len()
        invariant
            i <= s@.len(),
            out@ == s@.take(i as int),
        decreases s@.len() - i,
    {
        let t: Option<Type> = match &s[i] {
            Some(t) => Some(t.dup()),
            None => None,
        };
        out.push(t);
        assert(out@ =~= s@.take(i + 1));
        i += 1;
    }
    assert(out@ =~= s@);
    out
}

// ---------------------------------------------------------------------------
// What a solution means
// ---------------------------------------------------------------------------

/// A choice of a type for every variable.
pub type Choice = spec_fn(u32) -> Type;

/// `t` with every variable replaced by its choice.
pub open spec fn inst(c: Choice, t: Type) -> Type
    decreases t,
{
    match t {
        Type::Var(v) => c(v),
        Type::Collection(k, a) => Type::Collection(k, inst_list(c, a)),
        Type::Func(p, r) => Type::Func(inst_list(c, p), Box::new(inst(c, *r))),
        Type::Tuple(a) => Type::Tuple(inst_list(c, a)),
        Type::Enum(d, a) => Type::Enum(d, inst_list(c, a)),
        Type::Record(d, a) => Type::Record(d, inst_list(c, a)),
        _ => t,
    }
}

pub open spec fn inst_list(c: Choice, l: TypeList) -> TypeList
    decreases l,
{
    match l {
        TypeList::Nil => TypeList::Nil,
        TypeList::Cons(h, t) => TypeList::Cons(
            Box::new(inst(c, *h)),
            Box::new(inst_list(c, *t)),
        ),
    }
}

/// Whether a choice agrees with a solution.
pub open spec fn respects(c: Choice, s: Solution) -> bool {
    forall|v: u32|
        v < s.len() && (#[trigger] s[v as int]) is Some ==> c(v) == inst(c, s[v as int]->0)
}

/// Whether a choice makes both sides of every equation the same type.
pub open spec fn equates(c: Choice, w: Seq<(Type, Type)>) -> bool {
    forall|i: int| 0 <= i < w.len() ==> inst(c, (#[trigger] w[i]).0) == inst(c, w[i].1)
}

/// Whether every variable of `t` is known to `s` and still open in it.
pub open spec fn settled(s: Solution, t: Type) -> bool {
    forall|v: u32| #[trigger] occurs(v, t) ==> v < s.len() && s[v as int] is None
}

/// Whether no solved or unknown variable occurs in any variable's solution.
pub open spec fn well_formed(s: Solution) -> bool {
    forall|v: int| 0 <= v < s.len() && (#[trigger] s[v]) is Some ==> settled(s, s[v]->0)
}

/// Whether every variable of `t` is known to `s`.
pub open spec fn known(s: Solution, t: Type) -> bool {
    forall|v: u32| #[trigger] occurs(v, t) ==> v < s.len()
}

pub open spec fn work_settled(s: Solution, w: Seq<(Type, Type)>) -> bool {
    forall|i: int|
        0 <= i < w.len() ==> settled(s, (#[trigger] w[i]).0) && settled(s, w[i].1)
}

proof fn lemma_inst_replace(c: Choice, t: Type, v: u32, u: Type)
    requires
        c(v) == inst(c, u),
    ensures
        inst(c, replace(t, v, u)) == inst(c, t),
    decreases t,
{
    match t {
        Type::Collection(_, a) => lemma_inst_replace_list(c, a, v, u),
        Type::Func(p, r) => {
            lemma_inst_replace_list(c, p, v, u);
            lemma_inst_replace(c, *r, v, u);
        },
        Type::Tuple(a) => lemma_inst_replace_list(c, a, v, u),
        Type::Enum(_, a) => lemma_inst_replace_list(c, a, v, u),
        Type::Record(_, a) => lemma_inst_replace_list(c, a, v, u),
        _ => {},
    }
}

proof fn lemma_inst_replace_list(c: Choice, l: TypeList, v: u32, u: Type)
    requires
        c(v) == inst(c, u),
    ensures
        inst_list(c, replace_list(l, v, u)) == inst_list(c, l),
    decreases l,
{
    match l {
        TypeList::Nil => {},
        TypeList::Cons(h, t) => {
            lemma_inst_replace(c, *h, v, u);
            lemma_inst_replace_list(c, *t, v, u);
        },
    }
}

proof fn lemma_inst_occurs(c: Choice, v: u32, t: Type)
    requires
        occurs(v, t),
    ensures
        size(inst(c, t)) >= size(c(v)),
        t is Var || size(inst(c, t)) > size(c(v)),
    decreases t,
{
    match t {
        Type::Collection(_, a) => lemma_inst_occurs_list(c, v, a),
        Type::Func(p, r) => {
            if occurs_list(v, p) {
                lemma_inst_occurs_list(c, v, p);
            } else {
                lemma_inst_occurs(c, v, *r);
            }
        },
        Type::Tuple(a) => lemma_inst_occurs_list(c, v, a),
        Type::Enum(_, a) => lemma_inst_occurs_list(c, v, a),
        Type::Record(_, a) => lemma_inst_occurs_list(c, v, a),
        _ => {},
    }
}

proof fn lemma_inst_occurs_list(c: Choice, v: u32, l: TypeList)
    requires
        occurs_list(v, l),
    ensures
        size_list(inst_list(c, l)) >= size(c(v)),
    decreases l,
{
    match l {
        TypeList::Nil => {},
        TypeList::Cons(h, t) => {
            if occurs(v, *h) {
                lemma_inst_occurs(c, v, *h);
            } else {
                lemma_inst_occurs_list(c, v, *t);
            }
        },
    }
}

/// The variables of a replacement are the replaced type's, less the variable
/// replaced, and the replacing type's.
proof fn lemma_occurs_replace(w: u32, t: Type, v: u32, u: Type)
    ensures
        occurs(w, replace(t, v, u)) ==> (occurs(w, t) && w != v) || occurs(w, u),
    decreases t,
{
    match t {
        Type::Collection(_, a) => lemma_occurs_replace_list(w, a, v, u),
        Type::Func(p, r) => {
            lemma_occurs_replace_list(w, p, v, u);
            lemma_occurs_replace(w, *r, v, u);
        },
        Type::Tuple(a) => lemma_occurs_replace_list(w, a, v, u),
        Type::Enum(_, a) => lemma_occurs_replace_list(w, a, v, u),
        Type::Record(_, a) => lemma_occurs_replace_list(w, a, v, u),
        _ => {},
    }
}

proof fn lemma_occurs_replace_list(w: u32, l: TypeList, v: u32, u: Type)
    ensures
        occurs_list(w, replace_list(l, v, u)) ==> (occurs_list(w, l) && w != v) || occurs(w, u),
    decreases l,
{
    match l {
        TypeList::Nil => {},
        TypeList::Cons(h, t) => {
            lemma_occurs_replace(w, *h, v, u);
            lemma_occurs_replace_list(w, *t, v, u);
        },
    }
}

proof fn lemma_bind_settled(s: Solution, v: u32, u: Type, t: Type)
    requires
        v < s.len(),
        settled(s, u),
        !occurs(v, u),
        settled(s, t),
    ensures
        settled(bind(s, v, u), replace(t, v, u)),
{
    assert forall|w: u32| #[trigger] occurs(w, replace(t, v, u)) implies w < bind(s, v, u).len()
        && bind(s, v, u)[w as int] is None by {
        lemma_occurs_replace(w, t, v, u);
    }
}

proof fn lemma_bind_wf(s: Solution, v: u32, u: Type)
    requires
        v < s.len(),
        well_formed(s),
        settled(s, u),
        !occurs(v, u),
    ensures
        well_formed(bind(s, v, u)),
{
    let b = bind(s, v, u);
    assert forall|i: int| 0 <= i < b.len() && (#[trigger] b[i]) is Some implies settled(
        b,
        b[i]->0,
    ) by {
        if i == v {
            assert forall|w: u32| #[trigger] occurs(w, u) implies w < b.len()
                && b[w as int] is None by {}
        } else {
            assert(s[i] is Some);
            lemma_bind_settled(s, v, u, s[i]->0);
        }
    }
}

proof fn lemma_bind_respects(c: Choice, s: Solution, v: u32, u: Type)
    requires
        v < s.len(),
        s[v as int] is None,
    ensures
        respects(c, bind(s, v, u)) <==> respects(c, s) && c(v) == inst(c, u),
{
    let b = bind(s, v, u);
    if respects(c, b) {
        assert(b[v as int] is Some);
        assert(c(v) == inst(c, u));
        assert forall|w: u32| w < s.len() && (#[trigger] s[w as int]) is Some implies c(w) == inst(
            c,
            s[w as int]->0,
        ) by {
            assert(b[w as int] is Some);
            lemma_inst_replace(c, s[w as int]->0, v, u);
        }
    }
    if respects(c, s) && c(v) == inst(c, u) {
        assert forall|w: u32| w < b.len() && (#[trigger] b[w as int]) is Some implies c(w) == inst(
            c,
            b[w as int]->0,
        ) by {
            if w != v {
                assert(s[w as int] is Some);
                lemma_inst_replace(c, s[w as int]->0, v, u);
            }
        }
    }
}

proof fn lemma_work_replace_equates(c: Choice, w: Seq<(Type, Type)>, v: u32, u: Type)
    requires
        c(v) == inst(c, u),
    ensures
        equates(c, work_replace(w, v, u)) <==> equates(c, w),
{
    let r = work_replace(w, v, u);
    assert forall|i: int| 0 <= i < w.len() implies inst(c, #[trigger] r[i].0) == inst(c, w[i].0)
        && inst(c, r[i].1) == inst(c, w[i].1) by {
        lemma_inst_replace(c, w[i].0, v, u);
        lemma_inst_replace(c, w[i].1, v, u);
    }
    if equates(c, r) {
        assert forall|i: int| 0 <= i < w.len() implies inst(c, (#[trigger] w[i]).0) == inst(
            c,
            w[i].1,
        ) by {
            assert(inst(c, r[i].0) == inst(c, w[i].0));
        }
    }
    if equates(c, w) {
        assert forall|i: int| 0 <= i < r.len() implies inst(c, (#[trigger] r[i]).0) == inst(
            c,
            r[i].1,
        ) by {
            assert(inst(c, w[i].0) == inst(c, w[i].1));
        }
    }
}

proof fn lemma_equates_push(c: Choice, w: Seq<(Type, Type)>, a: Type, b: Type)
    ensures
        equates(c, w.push((a, b))) <==> equates(c, w) && inst(c, a) == inst(c, b),
{
    let p = w.push((a, b));
    if equates(c, p) {
        assert(p[w.len() as int] == (a, b));
        assert forall|i: int| 0 <= i < w.len() implies inst(c, (#[trigger] w[i]).0) == inst(
            c,
            w[i].1,
        ) by {
            assert(p[i] == w[i]);
        }
    }
}

proof fn lemma_zip_equates(c: Choice, x: TypeList, y: TypeList, w: Seq<(Type, Type)>)
    requires
        same_len(x, y),
    ensures
        equates(c, zip_onto(x, y, w)) <==> equates(c, w) && inst_list(c, x) == inst_list(c, y),
    decreases x,
{
    match (x, y) {
        (TypeList::Cons(a, x2), TypeList::Cons(b, y2)) => {
            lemma_zip_equates(c, *x2, *y2, w);
            lemma_equates_push(c, zip_onto(*x2, *y2, w), *a, *b);
        },
        _ => {},
    }
}

proof fn lemma_inst_len(c: Choice, x: TypeList, y: TypeList)
    requires
        inst_list(c, x) == inst_list(c, y),
    ensures
        same_len(x, y),
    decreases x,
{
    match (x, y) {
        (TypeList::Cons(a, x2), TypeList::Cons(b, y2)) => lemma_inst_len(c, *x2, *y2),
        _ => {},
    }
}

proof fn lemma_zip_settled(s: Solution, x: TypeList, y: TypeList, w: Seq<(Type, Type)>)
    requires
        work_settled(s, w),
        forall|v: u32| occurs_list(v, x) ==> v < s.len() && s[v as int] is None,
        forall|v: u32| occurs_list(v, y) ==> v < s.len() && s[v as int] is None,
    ensures
        work_settled(s, zip_onto(x, y, w)),
    decreases x,
{
    match (x, y) {
        (TypeList::Cons(a, x2), TypeList::Cons(b, y2)) => {
            assert forall|v: u32| occurs_list(v, *x2) implies v < s.len()
                && s[v as int] is None by {
                assert(occurs_list(v, x));
            }
            assert forall|v: u32| occurs_list(v, *y2) implies v < s.len()
                && s[v as int] is None by {
                assert(occurs_list(v, y));
            }
            lemma_zip_settled(s, *x2, *y2, w);
            assert forall|v: u32| #[trigger] occurs(v, *a) implies v < s.len()
                && s[v as int] is None by {
                assert(occurs_list(v, x));
            }
            assert forall|v: u32| #[trigger] occurs(v, *b) implies v < s.len()
                && s[v as int] is None by {
                assert(occurs_list(v, y));
            }
        },
        _ => {},
    }
}

/// A step that splits an equation keeps the work settled and means the same.
proof fn lemma_split(s: Solution, c: Choice, a: Type, b: Type, rest: Seq<(Type, Type)>)
    requires
        settled(s, a),
        settled(s, b),
        work_settled(s, rest),
    ensures
        step(s, a, b) matches Step::Split(extra, x, y) ==> {
            &&& work_settled(s, zip_onto(x, y, rest + extra))
            &&& equates(c, zip_onto(x, y, rest + extra)) <==> equates(c, rest) && inst(c, a)
                == inst(c, b)
        },
        step(s, a, b) is Clash && respects(c, s) ==> inst(c, a) != inst(c, b),
{
    match step(s, a, b) {
        Step::Split(extra, x, y) => {
            match (a, b) {
                (Type::Func(p, r), Type::Func(q, t)) => {
                    assert(rest + extra =~= rest.push((*r, *t)));
                    lemma_equates_push(c, rest, *r, *t);
                    assert forall|v: u32| #[trigger] occurs(v, *r) implies v < s.len()
                        && s[v as int] is None by {
                        assert(occurs(v, a));
                    }
                    assert forall|v: u32| #[trigger] occurs(v, *t) implies v < s.len()
                        && s[v as int] is None by {
                        assert(occurs(v, b));
                    }
                },
                _ => {
                    assert(rest + extra =~= rest);
                },
            }
            assert(work_settled(s, rest + extra));
            assert forall|v: u32| occurs_list(v, x) implies v < s.len() && s[v as int] is None by {
                assert(occurs(v, a));
            }
            assert forall|v: u32| occurs_list(v, y) implies v < s.len() && s[v as int] is None by {
                assert(occurs(v, b));
            }
            lemma_zip_settled(s, x, y, rest + extra);
            lemma_zip_equates(c, x, y, rest + extra);
        },
        Step::Clash => {
            if respects(c, s) && inst(c, a) == inst(c, b) {
                match (a, b) {
                    (Type::Var(v), _) => {
                        assert(occurs(v, a));
                        assert(occurs(v, b));
                        lemma_inst_occurs(c, v, b);
                    },
                    (_, Type::Var(v)) => {
                        assert(occurs(v, b));
                        assert(occurs(v, a));
                        lemma_inst_occurs(c, v, a);
                    },
                    (Type::Collection(_, x), Type::Collection(_, y)) => lemma_inst_len(c, x, y),
                    (Type::Func(x, _), Type::Func(y, _)) => lemma_inst_len(c, x, y),
                    (Type::Tuple(x), Type::Tuple(y)) => lemma_inst_len(c, x, y),
                    (Type::Enum(_, x), Type::Enum(_, y)) => lemma_inst_len(c, x, y),
                    (Type::Record(_, x), Type::Record(_, y)) => lemma_inst_len(c, x, y),
                    _ => {},
                }
            }
        },
        _ => {},
    }
}

/// Solving equations neither loses nor gains a choice of types: the choices
/// that respect the result are those that respect `s` and satisfy every
/// equation, and there are none when solving fails.
pub proof fn lemma_solve(s: Solution, w: Seq<(Type, Type)>, c: Choice)
    requires
        well_formed(s),
        work_settled(s, w),
    ensures
        match solve(s, w) {
            Some(r) => {
                &&& well_formed(r)
                &&& r.len() == s.len()
                &&& respects(c, r) <==> respects(c, s) && equates(c, w)
            },
            None => !(respects(c, s) && equates(c, w)),
        },
    decreases unsolved(s), work_size(w),
{
    if w.len() > 0 {
        let (a, b) = w.last();
        let rest = w.drop_last();
        assert(w =~= rest.push((a, b)));
        lemma_equates_push(c, rest, a, b);
        assert(settled(s, a) && settled(s, b)) by {
            let i = w.len() - 1;
            assert(w[i] == (a, b));
        }
        assert(work_settled(s, rest)) by {
            assert forall|i: int| 0 <= i < rest.len() implies settled(s, (#[trigger] rest[i]).0)
                && settled(s, rest[i].1) by {
                assert(rest[i] == w[i]);
            }
        }
        lemma_split(s, c, a, b, rest);
        match step(s, a, b) {
            Step::Same => {
                lemma_size_pos(a);
                lemma_solve(s, rest, c);
            },
            Step::Bind(v, t) => {
                assert(settled(s, t));
                lemma_unsolved_bind(s, v, t);
                lemma_bind_wf(s, v, t);
                lemma_bind_respects(c, s, v, t);
                let r = work_replace(rest, v, t);
                let n = bind(s, v, t);
                assert forall|i: int| 0 <= i < r.len() implies settled(n, (#[trigger] r[i]).0)
                    && settled(n, r[i].1) by {
                    assert(settled(s, rest[i].0) && settled(s, rest[i].1));
                    lemma_bind_settled(s, v, t, rest[i].0);
                    lemma_bind_settled(s, v, t, rest[i].1);
                }
                lemma_solve(n, r, c);
                if c(v) == inst(c, t) {
                    lemma_work_replace_equates(c, rest, v, t);
                }
            },
            Step::Split(extra, x, y) => {
                lemma_split_size(s, a, b, rest);
                lemma_solve(s, zip_onto(x, y, rest + extra), c);
            },
            Step::Clash => {},
        }
    }
}

proof fn lemma_apply_settled(s: Solution, t: Type)
    requires
        well_formed(s),
        known(s, t),
    ensures
        settled(s, apply(s, t)),
    decreases t,
{
    assert forall|w: u32| #[trigger] occurs(w, apply(s, t)) implies w < s.len()
        && s[w as int] is None by {
        lemma_occurs_apply(s, t, w);
    }
}

proof fn lemma_occurs_apply(s: Solution, t: Type, w: u32)
    requires
        well_formed(s),
        known(s, t),
        occurs(w, apply(s, t)),
    ensures
        w < s.len() && s[w as int] is None,
    decreases t,
{
    match t {
        Type::Var(v) => {
            assert(occurs(v, t));
            if s[v as int] is Some {
                assert(settled(s, s[v as int]->0));
            }
        },
        Type::Collection(_, a) => {
            assert forall|v: u32| occurs_list(v, a) implies v < s.len() by {
                assert(occurs(v, t));
            }
            lemma_occurs_apply_list(s, a, w);
        },
        Type::Func(p, r) => {
            assert forall|v: u32| occurs_list(v, p) implies v < s.len() by {
                assert(occurs(v, t));
            }
            assert forall|v: u32| #[trigger] occurs(v, *r) implies v < s.len() by {
                assert(occurs(v, t));
            }
            if occurs_list(w, apply_list(s, p)) {
                lemma_occurs_apply_list(s, p, w);
            } else {
                lemma_occurs_apply(s, *r, w);
            }
        },
        Type::Tuple(a) => {
            assert forall|v: u32| occurs_list(v, a) implies v < s.len() by {
                assert(occurs(v, t));
            }
            lemma_occurs_apply_list(s, a, w);
        },
        Type::Enum(_, a) => {
            assert forall|v: u32| occurs_list(v, a) implies v < s.len() by {
                assert(occurs(v, t));
            }
            lemma_occurs_apply_list(s, a, w);
        },
        Type::Record(_, a) => {
            assert forall|v: u32| occurs_list(v, a) implies v < s.len() by {
                assert(occurs(v, t));
            }
            lemma_occurs_apply_list(s, a, w);
        },
        _ => {},
    }
}

proof fn lemma_occurs_apply_list(s: Solution, l: TypeList, w: u32)
    requires
        well_formed(s),
        forall|v: u32| occurs_list(v, l) ==> v < s.len(),
        occurs_list(w, apply_list(s, l)),
    ensures
        w < s.len() && s[w as int] is None,
    decreases l,
{
    match l {
        TypeList::Nil => {},
        TypeList::Cons(h, t) => {
            assert forall|v: u32| #[trigger] occurs(v, *h) implies v < s.len() by {
                assert(occurs_list(v, l));
            }
            assert forall|v: u32| occurs_list(v, *t) implies v < s.len() by {
                assert(occurs_list(v, l));
            }
            if occurs(w, apply(s, *h)) {
                lemma_occurs_apply(s, *h, w);
            } else {
                lemma_occurs_apply_list(s, *t, w);
            }
        },
    }
}

proof fn lemma_inst_apply(c: Choice, s: Solution, t: Type)
    requires
        respects(c, s),
    ensures
        inst(c, apply(s, t)) == inst(c, t),
    decreases t,
{
    match t {
        Type::Collection(_, a) => lemma_inst_apply_list(c, s, a),
        Type::Func(p, r) => {
            lemma_inst_apply_list(c, s, p);
            lemma_inst_apply(c, s, *r);
        },
        Type::Tuple(a) => lemma_inst_apply_list(c, s, a),
        Type::Enum(_, a) => lemma_inst_apply_list(c, s, a),
        Type::Record(_, a) => lemma_inst_apply_list(c, s, a),
        _ => {},
    }
}

proof fn lemma_inst_apply_list(c: Choice, s: Solution, l: TypeList)
    requires
        respects(c, s),
    ensures
        inst_list(c, apply_list(s, l)) == inst_list(c, l),
    decreases l,
{
    match l {
        TypeList::Nil => {},
        TypeList::Cons(h, t) => {
            lemma_inst_apply(c, s, *h);
            lemma_inst_apply_list(c, s, *t);
        },
    }
}

/// Unification is most general. The choices that respect its result are exactly
/// those that respect `s` and make `a` and `b` the same type, and unification
/// fails only where no such choice exists.
pub proof fn law_unify_most_general(s: Solution, a: Type, b: Type, c: Choice)
    requires
        well_formed(s),
        known(s, a),
        known(s, b),
    ensures
        match unify_spec(s, a, b) {
            Some(r) => {
                &&& well_formed(r)
                &&& r.len() == s.len()
                &&& respects(c, r) <==> respects(c, s) && inst(c, a) == inst(c, b)
            },
            None => !(respects(c, s) && inst(c, a) == inst(c, b)),
        },
{
    let w = seq![(apply(s, a), apply(s, b))];
    lemma_apply_settled(s, a);
    lemma_apply_settled(s, b);
    lemma_solve(s, w, c);
    assert(w =~= Seq::<(Type, Type)>::empty().push((apply(s, a), apply(s, b))));
    lemma_equates_push(c, Seq::empty(), apply(s, a), apply(s, b));
    if respects(c, s) {
        lemma_inst_apply(c, s, a);
        lemma_inst_apply(c, s, b);
    }
}

/// A well-formed solution is in solved form, so one pass resolves a type fully.
pub proof fn law_well_formed_is_solved(s: Solution)
    requires
        well_formed(s),
    ensures
        solved_form(s),
{
    assert forall|v: int| 0 <= v < s.len() && (#[trigger] s[v]) is Some implies apply(s, s[v]->0)
        == s[v]->0 by {
        lemma_apply_open(s, s[v]->0);
    }
}

proof fn lemma_apply_open(s: Solution, t: Type)
    requires
        settled(s, t),
    ensures
        apply(s, t) == t,
    decreases t,
{
    match t {
        Type::Var(v) => assert(occurs(v, t)),
        Type::Collection(_, a) => {
            assert forall|v: u32| occurs_list(v, a) implies v < s.len() && s[v as int] is None by {
                assert(occurs(v, t));
            }
            lemma_apply_open_list(s, a);
        },
        Type::Func(p, r) => {
            assert forall|v: u32| occurs_list(v, p) implies v < s.len() && s[v as int] is None by {
                assert(occurs(v, t));
            }
            assert forall|v: u32| #[trigger] occurs(v, *r) implies v < s.len()
                && s[v as int] is None by {
                assert(occurs(v, t));
            }
            lemma_apply_open_list(s, p);
            lemma_apply_open(s, *r);
        },
        Type::Tuple(a) => {
            assert forall|v: u32| occurs_list(v, a) implies v < s.len() && s[v as int] is None by {
                assert(occurs(v, t));
            }
            lemma_apply_open_list(s, a);
        },
        Type::Enum(_, a) => {
            assert forall|v: u32| occurs_list(v, a) implies v < s.len() && s[v as int] is None by {
                assert(occurs(v, t));
            }
            lemma_apply_open_list(s, a);
        },
        Type::Record(_, a) => {
            assert forall|v: u32| occurs_list(v, a) implies v < s.len() && s[v as int] is None by {
                assert(occurs(v, t));
            }
            lemma_apply_open_list(s, a);
        },
        _ => {},
    }
}

proof fn lemma_apply_open_list(s: Solution, l: TypeList)
    requires
        forall|v: u32| occurs_list(v, l) ==> v < s.len() && s[v as int] is None,
    ensures
        apply_list(s, l) == l,
    decreases l,
{
    match l {
        TypeList::Nil => {},
        TypeList::Cons(h, t) => {
            assert forall|v: u32| #[trigger] occurs(v, *h) implies v < s.len()
                && s[v as int] is None by {
                assert(occurs_list(v, l));
            }
            assert forall|v: u32| occurs_list(v, *t) implies v < s.len()
                && s[v as int] is None by {
                assert(occurs_list(v, l));
            }
            lemma_apply_open(s, *h);
            lemma_apply_open_list(s, *t);
        },
    }
}

/// What a solution itself chooses.
pub open spec fn own_choice(r: Solution) -> Choice {
    |v: u32| apply(r, Type::Var(v))
}

proof fn lemma_own_choice(r: Solution, t: Type)
    ensures
        inst(own_choice(r), t) == apply(r, t),
    decreases t,
{
    match t {
        Type::Collection(_, a) => lemma_own_choice_list(r, a),
        Type::Func(p, q) => {
            lemma_own_choice_list(r, p);
            lemma_own_choice(r, *q);
        },
        Type::Tuple(a) => lemma_own_choice_list(r, a),
        Type::Enum(_, a) => lemma_own_choice_list(r, a),
        Type::Record(_, a) => lemma_own_choice_list(r, a),
        _ => {},
    }
}

proof fn lemma_own_choice_list(r: Solution, l: TypeList)
    ensures
        inst_list(own_choice(r), l) == apply_list(r, l),
    decreases l,
{
    match l {
        TypeList::Nil => {},
        TypeList::Cons(h, t) => {
            lemma_own_choice(r, *h);
            lemma_own_choice_list(r, *t);
        },
    }
}

/// Unified types are the same type from then on.
pub proof fn law_unified_types_are_equal(s: Solution, a: Type, b: Type)
    requires
        well_formed(s),
        known(s, a),
        known(s, b),
        unify_spec(s, a, b) is Some,
    ensures
        apply(unify_spec(s, a, b)->0, a) == apply(unify_spec(s, a, b)->0, b),
        well_formed(unify_spec(s, a, b)->0),
{
    let r = unify_spec(s, a, b)->0;
    let c = own_choice(r);
    law_unify_most_general(s, a, b, c);
    law_well_formed_is_solved(r);
    assert forall|v: u32| v < r.len() && (#[trigger] r[v as int]) is Some implies c(v) == inst(
        c,
        r[v as int]->0,
    ) by {
        lemma_own_choice(r, r[v as int]->0);
        assert(apply(r, Type::Var(v)) == r[v as int]->0);
    }
    assert(respects(c, r));
    lemma_own_choice(r, a);
    lemma_own_choice(r, b);
}

/// A type unifies with itself, and nothing is learned.
pub proof fn lemma_unify_same(s: Solution, t: Type)
    ensures
        unify_spec(s, t, t) is Some,
{
    reveal_with_fuel(solve, 3);
}

/// Types that are the same already unify, and nothing is learned.
pub proof fn law_equal_types_unify(s: Solution, a: Type, b: Type)
    requires
        apply(s, a) == apply(s, b),
    ensures
        unify_spec(s, a, b) == Some(s),
{
    reveal_with_fuel(solve, 3);
}

/// Types made by different constructors do not unify.
pub proof fn law_clashing_types_do_not_unify(s: Solution, a: Type, b: Type)
    requires
        step(s, apply(s, a), apply(s, b)) is Clash,
    ensures
        unify_spec(s, a, b) is None,
{
    reveal_with_fuel(solve, 3);
}

/// What is learned stays: resolving before and after is resolving after, and
/// types that were the same stay the same.
pub proof fn law_unifying_only_adds(s: Solution, a: Type, b: Type, x: Type, y: Type)
    requires
        well_formed(s),
        known(s, a),
        known(s, b),
        unify_spec(s, a, b) is Some,
    ensures
        apply(unify_spec(s, a, b)->0, apply(s, x)) == apply(unify_spec(s, a, b)->0, x),
        apply(s, x) == apply(s, y) ==> apply(unify_spec(s, a, b)->0, x) == apply(
            unify_spec(s, a, b)->0,
            y,
        ),
{
    let r = unify_spec(s, a, b)->0;
    let c = own_choice(r);
    law_unify_most_general(s, a, b, c);
    law_well_formed_is_solved(r);
    assert forall|v: u32| v < r.len() && (#[trigger] r[v as int]) is Some implies c(v) == inst(
        c,
        r[v as int]->0,
    ) by {
        lemma_own_choice(r, r[v as int]->0);
        assert(apply(r, Type::Var(v)) == r[v as int]->0);
    }
    assert(respects(c, r));
    lemma_inst_apply(c, s, x);
    lemma_inst_apply(c, s, y);
    lemma_own_choice(r, x);
    lemma_own_choice(r, y);
    lemma_own_choice(r, apply(s, x));
}

/// Nothing comes to never return by another type becoming a scalar.
pub proof fn lemma_scalars_make_nothing_never(s: Solution, t: Type, x: Type, y: Type)
    requires
        t is Scalar,
        unify_spec(s, t, x) is Some,
        !(apply(s, y) is Never),
    ensures
        !(apply(unify_spec(s, t, x)->0, y) is Never),
{
    reveal_with_fuel(solve, 3);
    let w = seq![(apply(s, t), apply(s, x))];
    assert(w.drop_last() =~= Seq::empty());
    assert(w.last() == (t, apply(s, x)));
    if t != apply(s, x) {
        if let Type::Var(v) = apply(s, x) {
            assert(work_replace(w.drop_last(), v, t) =~= Seq::empty());
            assert(unify_spec(s, t, x)->0 == bind(s, v, t));
        }
    } else {
        assert(unify_spec(s, t, x) == Some(s));
    }
}

} // verus!
