//! The types of method-catalog rows, and how a call site instantiates them.
use vstd::prelude::*;

use crate::typedb::{fresh_spec, DbView, TypeDb};
use crate::types::{CollectionCtor, EnumDefId, ScalarType, Type, TypeList};

verus! {

/// The type of a row's receiver, parameter or result, as the catalog writes it.
#[derive(Debug)]
pub enum TypePattern {
    Scalar(ScalarType),
    Unit,
    /// A variable, shared by every mention of its name in one row.
    Var(String),
    Collection(CollectionCtor, Vec<TypePattern>),
    Function(Vec<TypePattern>, Box<TypePattern>),
    Tuple(Vec<TypePattern>),
    Option(Box<TypePattern>),
    /// Anything that can be iterated; a receiver only.
    Iterable(Box<TypePattern>),
}

/// Whether a pattern is a type: collections have the arguments they take, and
/// nothing is merely iterable.
pub open spec fn is_type(p: TypePattern) -> bool
    decreases p,
{
    match p {
        TypePattern::Collection(ctor, args) => args@.len() == ctor.spec_arity() && all_types(args@),
        TypePattern::Function(params, result) => all_types(params@) && is_type(*result),
        TypePattern::Tuple(els) => all_types(els@),
        TypePattern::Option(inner) => is_type(*inner),
        TypePattern::Iterable(_) => false,
        _ => true,
    }
}

pub open spec fn all_types(s: Seq<TypePattern>) -> bool
    decreases s,
{
    s.len() == 0 || (all_types(s.drop_last()) && is_type(s.last()))
}

/// The type each named variable stands for in one instantiation.
pub type Bindings = Seq<(Seq<char>, Type)>;

/// What a name stands for: its earliest binding.
pub open spec fn bound(b: Bindings, name: Seq<char>) -> Option<Type>
    decreases b.len(),
{
    if b.len() == 0 {
        None
    } else {
        match bound(b.drop_last(), name) {
            Some(t) => Some(t),
            None => if b.last().0 == name {
                Some(b.last().1)
            } else {
                None
            },
        }
    }
}

/// A tuple of two or more; an empty tuple is `Unit` and a lone element itself.
pub open spec fn tuple_of(s: Seq<Type>) -> Type {
    if s.len() == 0 {
        Type::Unit
    } else if s.len() == 1 {
        s[0]
    } else {
        Type::Tuple(TypeList::of(s))
    }
}

/// The type a pattern stands for, the bindings after it, and the database after
/// it: a name's first mention takes a fresh variable, later ones the same.
pub open spec fn instantiate(
    p: TypePattern,
    option: EnumDefId,
    b: Bindings,
    db: DbView,
) -> (Type, Bindings, DbView)
    decreases p,
{
    match p {
        TypePattern::Scalar(s) => (Type::Scalar(s), b, db),
        TypePattern::Unit => (Type::Unit, b, db),
        TypePattern::Var(name) => match bound(b, name@) {
            Some(t) => (t, b, db),
            None => {
                let (t, after) = fresh_spec(db);
                (t, b.push((name@, t)), after)
            },
        },
        TypePattern::Collection(ctor, args) => {
            let (ts, b1, d1) = instantiate_all(args@, option, b, db);
            (Type::Collection(ctor, TypeList::of(ts)), b1, d1)
        },
        TypePattern::Function(params, result) => {
            let (ts, b1, d1) = instantiate_all(params@, option, b, db);
            let (r, b2, d2) = instantiate(*result, option, b1, d1);
            (Type::Func(TypeList::of(ts), Box::new(r)), b2, d2)
        },
        TypePattern::Tuple(els) => {
            let (ts, b1, d1) = instantiate_all(els@, option, b, db);
            (tuple_of(ts), b1, d1)
        },
        TypePattern::Option(inner) => {
            let (t, b1, d1) = instantiate(*inner, option, b, db);
            (Type::Enum(option, TypeList::of(seq![t])), b1, d1)
        },
        TypePattern::Iterable(_) => (Type::Unit, b, db),
    }
}

pub open spec fn instantiate_all(
    ps: Seq<TypePattern>,
    option: EnumDefId,
    b: Bindings,
    db: DbView,
) -> (Seq<Type>, Bindings, DbView)
    decreases ps,
{
    if ps.len() == 0 {
        (Seq::empty(), b, db)
    } else {
        let (ts, b1, d1) = instantiate_all(ps.drop_last(), option, b, db);
        let (t, b2, d2) = instantiate(ps.last(), option, b1, d1);
        (ts.push(t), b2, d2)
    }
}

/// The contents of a list of bindings.
pub open spec fn bindings_view(v: Seq<(String, Type)>) -> Bindings {
    v.map_values(|p: (String, Type)| (p.0@, p.1))
}

fn find_binding(v: &Vec<(String, Type)>, name: &String) -> (r: Option<Type>)
    ensures
        r == bound(bindings_view(v@), name@),
{
    let ghost b = bindings_view(v@);
    let mut i: usize = 0;
    assert(b.take(0) =~= Seq::empty());
    while i < v.len()
        invariant
            i <= v@.len(),
            b == bindings_view(v@),
            bound(b.take(i as int), name@) is None,
        decreases v@.len() - i,
    {
        assert(b.take(i + 1).drop_last() =~= b.take(i as int));
        assert(b.take(i + 1).last() == (v@[i as int].0@, v@[i as int].1));
        if v[i].0 == *name {
            proof {
                lemma_bound_prefix(b, name@, i + 1);
            }
            return Some(v[i].1.dup());
        }
        i += 1;
    }
    assert(b.take(i as int) =~= b);
    None
}

proof fn lemma_bound_prefix(b: Bindings, name: Seq<char>, n: int)
    requires
        0 <= n <= b.len(),
        bound(b.take(n), name) is Some,
    ensures
        bound(b, name) == bound(b.take(n), name),
    decreases b.len(),
{
    if n == b.len() {
        assert(b.take(n) =~= b);
    } else {
        assert(b.drop_last().take(n) =~= b.take(n));
        lemma_bound_prefix(b.drop_last(), name, n);
    }
}

fn tuple_or_degenerate(mut els: Vec<Type>) -> (r: Type)
    ensures
        r == tuple_of(els@),
{
    if els.len() == 0 {
        Type::Unit
    } else if els.len() == 1 {
        els.remove(0)
    } else {
        Type::Tuple(TypeList::from_vec(&els))
    }
}

/// The type a row's pattern stands for at one call site.
///
/// `names` carries the variables shared within the instantiation: a fresh list
/// for each call site, or two unrelated uses of a row would be forced to the
/// same types.
pub fn pattern_to_type_named(
    db: &mut TypeDb,
    p: &TypePattern,
    option: EnumDefId,
    names: &mut Vec<(String, Type)>,
) -> (r: Type)
    requires
        is_type(*p),
    ensures
        (r, bindings_view(final(names)@), final(db)@) == instantiate(
            *p,
            option,
            bindings_view(old(names)@),
            old(db)@,
        ),
        keeps(bindings_view(old(names)@), bindings_view(final(names)@)),
        r == reading(*p, option, bindings_view(final(names)@)),
        old(db)@.solution.len() + final(names)@.len() - old(names)@.len() <= u32::MAX ==> freshly(
            bindings_view(old(names)@),
            old(db)@.solution.len(),
            bindings_view(final(names)@),
        ),
{
    let ghost b = bindings_view(names@);
    let ghost before = db@;
    let r = instantiated(db, p, option, names);
    proof {
        let c = bindings_view(names@);
        lemma_keeps(*p, option, b, before);
        law_a_name_is_one_type(*p, option, b, before, c);
        if before.solution.len() + c.len() - b.len() <= u32::MAX {
            law_new_names_get_fresh_variables(*p, option, b, before);
        }
    }
    r
}

fn instantiated(
    db: &mut TypeDb,
    p: &TypePattern,
    option: EnumDefId,
    names: &mut Vec<(String, Type)>,
) -> (r: Type)
    requires
        is_type(*p),
    ensures
        (r, bindings_view(final(names)@), final(db)@) == instantiate(
            *p,
            option,
            bindings_view(old(names)@),
            old(db)@,
        ),
    decreases p,
{
    match p {
        TypePattern::Scalar(s) => Type::Scalar(*s),
        TypePattern::Unit => Type::Unit,
        TypePattern::Var(name) => match find_binding(names, name) {
            Some(t) => t,
            None => {
                let t = db.fresh_var();
                let ghost before = names@;
                names.push((name.clone(), t.dup()));
                assert(bindings_view(names@) =~= bindings_view(before).push((name@, t)));
                t
            },
        },
        TypePattern::Collection(ctor, args) => {
            let ts = patterns_to_types(db, args, option, names);
            Type::Collection(*ctor, TypeList::from_vec(&ts))
        },
        TypePattern::Function(params, result) => {
            let ts = patterns_to_types(db, params, option, names);
            let r = instantiated(db, result, option, names);
            Type::Func(TypeList::from_vec(&ts), Box::new(r))
        },
        TypePattern::Tuple(els) => {
            let ts = patterns_to_types(db, els, option, names);
            tuple_or_degenerate(ts)
        },
        TypePattern::Option(inner) => {
            let t = instantiated(db, inner, option, names);
            let mut one: Vec<Type> = Vec::new();
            one.push(t);
            assert(one@ =~= seq![t]);
            Type::Enum(option, TypeList::from_vec(&one))
        },
        TypePattern::Iterable(_) => Type::Unit,
    }
}

fn patterns_to_types(
    db: &mut TypeDb,
    ps: &Vec<TypePattern>,
    option: EnumDefId,
    names: &mut Vec<(String, Type)>,
) -> (r: Vec<Type>)
    requires
        all_types(ps@),
    ensures
        (r@, bindings_view(final(names)@), final(db)@) == instantiate_all(
            ps@,
            option,
            bindings_view(old(names)@),
            old(db)@,
        ),
    decreases ps,
{
    let mut out: Vec<Type> = Vec::new();
    let mut i: usize = 0;
    assert(ps@.take(0) =~= Seq::empty());
    assert(out@ =~= Seq::empty());
    while i < ps.len()
        invariant
            i <= ps@.len(),
            all_types(ps@),
            (out@, bindings_view(names@), db@) == instantiate_all(
                ps@.take(i as int),
                option,
                bindings_view(old(names)@),
                old(db)@,
            ),
        decreases ps@.len() - i,
    {
        assert(ps@.take(i + 1).drop_last() =~= ps@.take(i as int));
        proof {
            lemma_all_types(ps@, i as int);
        }
        let t = instantiated(db, &ps[i], option, names);
        out.push(t);
        i += 1;
    }
    assert(ps@.take(i as int) =~= ps@);
    out
}

proof fn lemma_all_types(s: Seq<TypePattern>, i: int)
    requires
        all_types(s),
        0 <= i < s.len(),
    ensures
        is_type(s[i]),
    decreases s.len(),
{
    if i < s.len() - 1 {
        lemma_all_types(s.drop_last(), i);
    }
}

/// Within one instantiation a name means one type: what it was first given it
/// keeps, whatever is instantiated after.
pub proof fn law_names_keep_their_types(
    p: TypePattern,
    option: EnumDefId,
    b: Bindings,
    db: DbView,
    name: Seq<char>,
)
    requires
        bound(b, name) is Some,
    ensures
        bound(instantiate(p, option, b, db).1, name) == bound(b, name),
    decreases p,
{
    match p {
        TypePattern::Var(n) => {
            if bound(b, n@) is None {
                let t = fresh_spec(db).0;
                assert(b.push((n@, t)).drop_last() =~= b);
            }
        },
        TypePattern::Collection(_, args) => lemma_names_kept(args@, option, b, db, name),
        TypePattern::Function(params, result) => {
            lemma_names_kept(params@, option, b, db, name);
            let (ts, b1, d1) = instantiate_all(params@, option, b, db);
            law_names_keep_their_types(*result, option, b1, d1, name);
        },
        TypePattern::Tuple(els) => lemma_names_kept(els@, option, b, db, name),
        TypePattern::Option(inner) => law_names_keep_their_types(*inner, option, b, db, name),
        _ => {},
    }
}

proof fn lemma_names_kept(
    ps: Seq<TypePattern>,
    option: EnumDefId,
    b: Bindings,
    db: DbView,
    name: Seq<char>,
)
    requires
        bound(b, name) is Some,
    ensures
        bound(instantiate_all(ps, option, b, db).1, name) == bound(b, name),
    decreases ps,
{
    if ps.len() > 0 {
        lemma_names_kept(ps.drop_last(), option, b, db, name);
        let (ts, b1, d1) = instantiate_all(ps.drop_last(), option, b, db);
        law_names_keep_their_types(ps.last(), option, b1, d1, name);
    }
}

// ---------------------------------------------------------------------------
// One variable for each name
// ---------------------------------------------------------------------------

/// A pattern with each name read as what it is bound to.
pub open spec fn reading(p: TypePattern, option: EnumDefId, b: Bindings) -> Type
    decreases p,
{
    match p {
        TypePattern::Scalar(s) => Type::Scalar(s),
        TypePattern::Unit => Type::Unit,
        TypePattern::Var(name) => match bound(b, name@) {
            Some(t) => t,
            None => Type::Unit,
        },
        TypePattern::Collection(ctor, args) => Type::Collection(
            ctor,
            TypeList::of(readings(args@, option, b)),
        ),
        TypePattern::Function(params, result) => Type::Func(
            TypeList::of(readings(params@, option, b)),
            Box::new(reading(*result, option, b)),
        ),
        TypePattern::Tuple(els) => tuple_of(readings(els@, option, b)),
        TypePattern::Option(inner) => Type::Enum(
            option,
            TypeList::of(seq![reading(*inner, option, b)]),
        ),
        TypePattern::Iterable(_) => Type::Unit,
    }
}

pub open spec fn readings(ps: Seq<TypePattern>, option: EnumDefId, b: Bindings) -> Seq<Type>
    decreases ps,
{
    if ps.len() == 0 {
        Seq::empty()
    } else {
        readings(ps.drop_last(), option, b).push(reading(ps.last(), option, b))
    }
}

/// Whether `c` binds whatever `b` does, and to the same.
pub open spec fn keeps(b: Bindings, c: Bindings) -> bool {
    forall|n: Seq<char>| #[trigger] bound(b, n) is Some ==> bound(c, n) == bound(b, n)
}

proof fn lemma_keeps(p: TypePattern, option: EnumDefId, b: Bindings, db: DbView)
    ensures
        keeps(b, instantiate(p, option, b, db).1),
{
    assert forall|n: Seq<char>| #[trigger] bound(b, n) is Some implies bound(
        instantiate(p, option, b, db).1,
        n,
    ) == bound(b, n) by {
        law_names_keep_their_types(p, option, b, db, n);
    }
}

proof fn lemma_pushed(b: Bindings, name: Seq<char>, t: Type)
    requires
        bound(b, name) is None,
    ensures
        bound(b.push((name, t)), name) == Some(t),
{
    assert(b.push((name, t)).drop_last() =~= b);
}

/// Every mention of a name is the one type the name is bound to: that it was
/// bound to before, or the one its first mention gave it.
pub proof fn law_a_name_is_one_type(
    p: TypePattern,
    option: EnumDefId,
    b: Bindings,
    db: DbView,
    c: Bindings,
)
    requires
        is_type(p),
        keeps(instantiate(p, option, b, db).1, c),
    ensures
        instantiate(p, option, b, db).0 == reading(p, option, c),
    decreases p,
{
    match p {
        TypePattern::Var(n) => {
            if bound(b, n@) is None {
                lemma_pushed(b, n@, fresh_spec(db).0);
            }
            assert(bound(instantiate(p, option, b, db).1, n@) is Some);
        },
        TypePattern::Collection(_, args) => lemma_names_are_types(args@, option, b, db, c),
        TypePattern::Function(params, result) => {
            let (ts, b1, d1) = instantiate_all(params@, option, b, db);
            lemma_keeps(*result, option, b1, d1);
            assert(keeps(b1, c)) by {
                let b2 = instantiate(*result, option, b1, d1).1;
                assert forall|n: Seq<char>| #[trigger] bound(b1, n) is Some implies bound(c, n)
                    == bound(b1, n) by {
                    assert(bound(b2, n) == bound(b1, n));
                }
            }
            lemma_names_are_types(params@, option, b, db, c);
            law_a_name_is_one_type(*result, option, b1, d1, c);
        },
        TypePattern::Tuple(els) => lemma_names_are_types(els@, option, b, db, c),
        TypePattern::Option(inner) => law_a_name_is_one_type(*inner, option, b, db, c),
        _ => {},
    }
}

proof fn lemma_names_are_types(
    ps: Seq<TypePattern>,
    option: EnumDefId,
    b: Bindings,
    db: DbView,
    c: Bindings,
)
    requires
        all_types(ps),
        keeps(instantiate_all(ps, option, b, db).1, c),
    ensures
        instantiate_all(ps, option, b, db).0 == readings(ps, option, c),
    decreases ps,
{
    if ps.len() > 0 {
        let (ts, b1, d1) = instantiate_all(ps.drop_last(), option, b, db);
        lemma_keeps(ps.last(), option, b1, d1);
        assert(keeps(b1, c)) by {
            let b2 = instantiate(ps.last(), option, b1, d1).1;
            assert forall|n: Seq<char>| #[trigger] bound(b1, n) is Some implies bound(c, n) == bound(
                b1,
                n,
            ) by {
                assert(bound(b2, n) == bound(b1, n));
            }
        }
        lemma_names_are_types(ps.drop_last(), option, b, db, c);
        law_a_name_is_one_type(ps.last(), option, b1, d1, c);
    }
}

/// Whether the bindings of `c` beyond those of `b` are of new names, each to a
/// variable of its own that a database of `n` variables does not have.
pub open spec fn freshly(b: Bindings, n: nat, c: Bindings) -> bool {
    &&& b.len() <= c.len()
    &&& c.take(b.len() as int) == b
    &&& forall|i: int|
        b.len() <= i < c.len() ==> (#[trigger] c[i]).1 == Type::Var((n + i - b.len()) as u32)
            && bound(c.take(i), c[i].0) is None
}

proof fn lemma_freshly(a: Bindings, n: nat, b: Bindings, c: Bindings)
    requires
        freshly(a, n, b),
        freshly(b, (n + b.len() - a.len()) as nat, c),
    ensures
        freshly(a, n, c),
{
    assert(c.take(a.len() as int) =~= b.take(a.len() as int));
    assert forall|i: int| a.len() <= i < c.len() implies (#[trigger] c[i]).1 == Type::Var(
        (n + i - a.len()) as u32,
    ) && bound(c.take(i), c[i].0) is None by {
        if i < b.len() {
            assert(c.take(b.len() as int)[i] == c[i]);
            assert(c.take(i) =~= b.take(i));
        }
    }
}

/// Each name that is new gets a variable of its own, which the database did not
/// have; names that are not new get nothing.
pub proof fn law_new_names_get_fresh_variables(
    p: TypePattern,
    option: EnumDefId,
    b: Bindings,
    db: DbView,
)
    requires
        db.solution.len() + instantiate(p, option, b, db).1.len() - b.len() <= u32::MAX,
    ensures
        freshly(b, db.solution.len(), instantiate(p, option, b, db).1),
        instantiate(p, option, b, db).2.solution.len() == db.solution.len() + instantiate(
            p,
            option,
            b,
            db,
        ).1.len() - b.len(),
    decreases p,
{
    match p {
        TypePattern::Var(n) => {
            if bound(b, n@) is None {
                let c = b.push((n@, fresh_spec(db).0));
                assert(c.take(b.len() as int) =~= b);
            } else {
                assert(b.take(b.len() as int) =~= b);
            }
        },
        TypePattern::Collection(_, args) => lemma_new_names(args@, option, b, db),
        TypePattern::Function(params, result) => {
            let (ts, b1, d1) = instantiate_all(params@, option, b, db);
            lemma_longer(*result, option, b1, d1);
            lemma_all_longer(params@, option, b, db);
            lemma_new_names(params@, option, b, db);
            law_new_names_get_fresh_variables(*result, option, b1, d1);
            lemma_freshly(b, db.solution.len(), b1, instantiate(*result, option, b1, d1).1);
        },
        TypePattern::Tuple(els) => lemma_new_names(els@, option, b, db),
        TypePattern::Option(inner) => law_new_names_get_fresh_variables(*inner, option, b, db),
        _ => {
            assert(b.take(b.len() as int) =~= b);
        },
    }
}

proof fn lemma_new_names(ps: Seq<TypePattern>, option: EnumDefId, b: Bindings, db: DbView)
    requires
        db.solution.len() + instantiate_all(ps, option, b, db).1.len() - b.len() <= u32::MAX,
    ensures
        freshly(b, db.solution.len(), instantiate_all(ps, option, b, db).1),
        instantiate_all(ps, option, b, db).2.solution.len() == db.solution.len()
            + instantiate_all(ps, option, b, db).1.len() - b.len(),
    decreases ps,
{
    if ps.len() > 0 {
        let (ts, b1, d1) = instantiate_all(ps.drop_last(), option, b, db);
        lemma_longer(ps.last(), option, b1, d1);
        lemma_all_longer(ps.drop_last(), option, b, db);
        lemma_new_names(ps.drop_last(), option, b, db);
        law_new_names_get_fresh_variables(ps.last(), option, b1, d1);
        lemma_freshly(b, db.solution.len(), b1, instantiate(ps.last(), option, b1, d1).1);
    } else {
        assert(b.take(b.len() as int) =~= b);
    }
}

proof fn lemma_longer(p: TypePattern, option: EnumDefId, b: Bindings, db: DbView)
    ensures
        b.len() <= instantiate(p, option, b, db).1.len(),
    decreases p,
{
    match p {
        TypePattern::Collection(_, args) => lemma_all_longer(args@, option, b, db),
        TypePattern::Function(params, result) => {
            lemma_all_longer(params@, option, b, db);
            let (ts, b1, d1) = instantiate_all(params@, option, b, db);
            lemma_longer(*result, option, b1, d1);
        },
        TypePattern::Tuple(els) => lemma_all_longer(els@, option, b, db),
        TypePattern::Option(inner) => lemma_longer(*inner, option, b, db),
        _ => {},
    }
}

proof fn lemma_all_longer(ps: Seq<TypePattern>, option: EnumDefId, b: Bindings, db: DbView)
    ensures
        b.len() <= instantiate_all(ps, option, b, db).1.len(),
    decreases ps,
{
    if ps.len() > 0 {
        lemma_all_longer(ps.drop_last(), option, b, db);
        let (ts, b1, d1) = instantiate_all(ps.drop_last(), option, b, db);
        lemma_longer(ps.last(), option, b1, d1);
    }
}

} // verus!
