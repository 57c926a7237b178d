//! Types, their definitions, and the solving of equations between them.
use vstd::prelude::*;
use vstd::string::*;


verus! {

/// The built-in scalar types.
#[derive(Clone, Copy, Debug, PartialEq, Eq, Structural)]
pub enum ScalarType {
    Int,
    Float,
    Bool,
    Char,
    Text,
}

/// The built-in collections.
#[derive(Clone, Copy, Debug, PartialEq, Eq, Structural)]
pub enum CollectionCtor {
    Vec,
    Deque,
    MapOf,
    SetOf,
    Counter,
    MinHeap,
    MaxHeap,
    BitSet,
    Grid,
    Range,
}

impl CollectionCtor {
    /// How many type arguments the collection takes.
    pub open spec fn spec_arity(self) -> nat {
        match self {
            CollectionCtor::MapOf => 2,
            CollectionCtor::BitSet | CollectionCtor::Range => 0,
            _ => 1,
        }
    }

    pub fn arity(self) -> (r: usize)
        ensures
            r == self.spec_arity(),
    {
        match self {
            CollectionCtor::MapOf => 2,
            CollectionCtor::BitSet | CollectionCtor::Range => 0,
            _ => 1,
        }
    }

    /// The name the collection is written with.
    pub open spec fn spec_name(self) -> Seq<char> {
        match self {
            CollectionCtor::Vec => "Vec"@,
            CollectionCtor::Deque => "Deque"@,
            CollectionCtor::MapOf => "Map"@,
            CollectionCtor::SetOf => "Set"@,
            CollectionCtor::Counter => "Counter"@,
            CollectionCtor::MinHeap => "MinHeap"@,
            CollectionCtor::MaxHeap => "MaxHeap"@,
            CollectionCtor::BitSet => "BitSet"@,
            CollectionCtor::Grid => "Grid"@,
            CollectionCtor::Range => "Range"@,
        }
    }

    pub fn name(self) -> (r: &'static str)
        ensures
            r@ == self.spec_name(),
    {
        match self {
            CollectionCtor::Vec => "Vec",
            CollectionCtor::Deque => "Deque",
            CollectionCtor::MapOf => "Map",
            CollectionCtor::SetOf => "Set",
            CollectionCtor::Counter => "Counter",
            CollectionCtor::MinHeap => "MinHeap",
            CollectionCtor::MaxHeap => "MaxHeap",
            CollectionCtor::BitSet => "BitSet",
            CollectionCtor::Grid => "Grid",
            CollectionCtor::Range => "Range",
        }
    }
}

/// The identity of an enum definition: its index in the [`TypeDb`].
#[derive(Clone, Copy, Debug, PartialEq, Eq, Structural)]
pub struct EnumDefId(pub u32);

/// The identity of a record definition: its index in the [`TypeDb`].
#[derive(Clone, Copy, Debug, PartialEq, Eq, Structural)]
pub struct RecordDefId(pub u32);

/// A type.
#[derive(Debug)]
pub enum Type {
    Scalar(ScalarType),
    Unit,
    /// The type of an expression that does not return.
    Never,
    /// A type variable.
    Var(u32),
    Collection(CollectionCtor, TypeList),
    Func(TypeList, Box<Type>),
    Tuple(TypeList),
    Enum(EnumDefId, TypeList),
    Record(RecordDefId, TypeList),
}

/// A list of types.
#[derive(Debug)]
pub enum TypeList {
    Nil,
    Cons(Box<Type>, Box<TypeList>),
}

impl Type {
    /// Whether two types are the same.
    pub fn same(&self, other: &Type) -> (r: bool)
        ensures
            r == (*self == *other),
        decreases self,
    {
        match (self, other) {
            (Type::Scalar(a), Type::Scalar(b)) => *a == *b,
            (Type::Unit, Type::Unit) => true,
            (Type::Never, Type::Never) => true,
            (Type::Var(a), Type::Var(b)) => *a == *b,
            (Type::Collection(a, x), Type::Collection(b, y)) => *a == *b && x.same(y),
            (Type::Func(p, q), Type::Func(u, v)) => p.same(u) && q.same(v),
            (Type::Tuple(x), Type::Tuple(y)) => x.same(y),
            (Type::Enum(a, x), Type::Enum(b, y)) => *a == *b && x.same(y),
            (Type::Record(a, x), Type::Record(b, y)) => *a == *b && x.same(y),
            _ => false,
        }
    }

    /// A copy of the type.
    pub fn dup(&self) -> (r: Type)
        ensures
            r == *self,
        decreases self,
    {
        match self {
            Type::Scalar(s) => Type::Scalar(*s),
            Type::Unit => Type::Unit,
            Type::Never => Type::Never,
            Type::Var(v) => Type::Var(*v),
            Type::Collection(c, a) => Type::Collection(*c, a.dup()),
            Type::Func(p, r) => Type::Func(p.dup(), Box::new(r.dup())),
            Type::Tuple(a) => Type::Tuple(a.dup()),
            Type::Enum(d, a) => Type::Enum(*d, a.dup()),
            Type::Record(d, a) => Type::Record(*d, a.dup()),
        }
    }
}

impl TypeList {
    pub fn same(&self, other: &TypeList) -> (r: bool)
        ensures
            r == (*self == *other),
        decreases self,
    {
        match (self, other) {
            (TypeList::Nil, TypeList::Nil) => true,
            (TypeList::Cons(a, x), TypeList::Cons(b, y)) => a.same(b) && x.same(y),
            _ => false,
        }
    }

    pub fn dup(&self) -> (r: TypeList)
        ensures
            r == *self,
        decreases self,
    {
        match self {
            TypeList::Nil => TypeList::Nil,
            TypeList::Cons(h, t) => TypeList::Cons(Box::new(h.dup()), Box::new(t.dup())),
        }
    }

    /// The list as a sequence.
    pub open spec fn seq(self) -> Seq<Type>
        decreases self,
    {
        match self {
            TypeList::Nil => Seq::empty(),
            TypeList::Cons(h, t) => seq![*h] + t.seq(),
        }
    }

    /// The list holding the elements of `s`.
    pub open spec fn of(s: Seq<Type>) -> TypeList
        decreases s.len(),
    {
        if s.len() == 0 {
            TypeList::Nil
        } else {
            TypeList::Cons(Box::new(s[0]), Box::new(TypeList::of(s.skip(1))))
        }
    }

    pub fn len(&self) -> (r: usize)
        requires
            self.seq().len() <= usize::MAX,
        ensures
            r == self.seq().len(),
        decreases self,
    {
        match self {
            TypeList::Nil => 0,
            TypeList::Cons(_, t) => 1 + t.len(),
        }
    }

    /// The elements, in order.
    pub fn to_vec(&self) -> (r: Vec<Type>)
        ensures
            r@ == self.seq(),
        decreases self,
    {
        let mut out: Vec<Type> = Vec::new();
        self.push_onto(&mut out);
        assert(out@ =~= self.seq());
        out
    }

    fn push_onto(&self, out: &mut Vec<Type>)
        ensures
            final(out)@ == old(out)@ + self.seq(),
        decreases self,
    {
        match self {
            TypeList::Nil => {
                assert(out@ =~= out@ + self.seq());
            },
            TypeList::Cons(h, t) => {
                out.push(h.dup());
                t.push_onto(out);
                assert(out@ =~= old(out)@ + self.seq());
            },
        }
    }

    /// The list holding the elements of `v`.
    pub fn from_vec(v: &Vec<Type>) -> (r: TypeList)
        ensures
            r == TypeList::of(v@),
            r.seq() == v@,
    {
        let mut out = TypeList::Nil;
        let mut i: usize = v.len();
        assert(v@.skip(i as int) =~= Seq::empty());
        while i > 0
            invariant
                i <= v.len(),
                out == TypeList::of(v@.skip(i as int)),
                out.seq() == v@.skip(i as int),
            decreases i,
        {
            i -= 1;
            let ghost s = v@.skip(i as int);
            assert(s.skip(1) =~= v@.skip(i + 1));
            assert(s[0] == v@[i as int]);
            out = TypeList::Cons(Box::new(v[i].dup()), Box::new(out));
            assert(s =~= seq![v@[i as int]] + v@.skip(i + 1));
        }
        assert(v@.skip(0) =~= v@);
        out
    }
}

/// A list is determined by its elements, and every sequence is some list's.
pub proof fn law_lists_are_their_elements(l: TypeList, s: Seq<Type>)
    ensures
        TypeList::of(l.seq()) == l,
        TypeList::of(s).seq() == s,
    decreases l, s.len(),
{
    lemma_of_seq(l);
    lemma_seq_of(s);
}

proof fn lemma_of_seq(l: TypeList)
    ensures
        TypeList::of(l.seq()) == l,
    decreases l,
{
    match l {
        TypeList::Nil => {},
        TypeList::Cons(h, t) => {
            lemma_of_seq(*t);
            assert((seq![*h] + t.seq()).skip(1) =~= t.seq());
        },
    }
}

proof fn lemma_seq_of(s: Seq<Type>)
    ensures
        TypeList::of(s).seq() == s,
    decreases s.len(),
{
    if s.len() > 0 {
        lemma_seq_of(s.skip(1));
        assert(seq![s[0]] + s.skip(1) =~= s);
    } else {
        assert(s =~= Seq::empty());
    }
}

// ---------------------------------------------------------------------------
// Substitutions
// ---------------------------------------------------------------------------

/// What each type variable has been solved to, if anything.
pub type Solution = Seq<Option<Type>>;

/// `t` with every solved variable replaced by its solution.
pub open spec fn apply(s: Solution, t: Type) -> Type
    decreases t,
{
    match t {
        Type::Var(v) => if v < s.len() && s[v as int] is Some {
            s[v as int]->0
        } else {
            t
        },
        Type::Collection(c, a) => Type::Collection(c, apply_list(s, a)),
        Type::Func(p, r) => Type::Func(apply_list(s, p), Box::new(apply(s, *r))),
        Type::Tuple(a) => Type::Tuple(apply_list(s, a)),
        Type::Enum(d, a) => Type::Enum(d, apply_list(s, a)),
        Type::Record(d, a) => Type::Record(d, apply_list(s, a)),
        _ => t,
    }
}

pub open spec fn apply_list(s: Solution, l: TypeList) -> TypeList
    decreases l,
{
    match l {
        TypeList::Nil => TypeList::Nil,
        TypeList::Cons(h, t) => TypeList::Cons(
            Box::new(apply(s, *h)),
            Box::new(apply_list(s, *t)),
        ),
    }
}

/// Whether a solution is in solved form: no solved variable occurs in any
/// variable's solution.
pub open spec fn solved_form(s: Solution) -> bool {
    forall|v: int| 0 <= v < s.len() && (#[trigger] s[v]) is Some ==> apply(s, s[v]->0) == s[v]->0
}

/// Resolving against a solved form twice is resolving once.
pub proof fn lemma_apply_idempotent(s: Solution, t: Type)
    requires
        solved_form(s),
    ensures
        apply(s, apply(s, t)) == apply(s, t),
    decreases t,
{
    match t {
        Type::Collection(c, a) => lemma_apply_list_idempotent(s, a),
        Type::Func(p, r) => {
            lemma_apply_list_idempotent(s, p);
            lemma_apply_idempotent(s, *r);
        },
        Type::Tuple(a) => lemma_apply_list_idempotent(s, a),
        Type::Enum(d, a) => lemma_apply_list_idempotent(s, a),
        Type::Record(d, a) => lemma_apply_list_idempotent(s, a),
        _ => {},
    }
}

pub proof fn lemma_apply_list_idempotent(s: Solution, l: TypeList)
    requires
        solved_form(s),
    ensures
        apply_list(s, apply_list(s, l)) == apply_list(s, l),
    decreases l,
{
    match l {
        TypeList::Nil => {},
        TypeList::Cons(h, t) => {
            lemma_apply_idempotent(s, *h);
            lemma_apply_list_idempotent(s, *t);
        },
    }
}

/// Whether variable `v` occurs in `t`.
pub open spec fn occurs(v: u32, t: Type) -> bool
    decreases t,
{
    match t {
        Type::Var(w) => v == w,
        Type::Collection(_, a) => occurs_list(v, a),
        Type::Func(p, r) => occurs_list(v, p) || occurs(v, *r),
        Type::Tuple(a) => occurs_list(v, a),
        Type::Enum(_, a) => occurs_list(v, a),
        Type::Record(_, a) => occurs_list(v, a),
        _ => false,
    }
}

pub open spec fn occurs_list(v: u32, l: TypeList) -> bool
    decreases l,
{
    match l {
        TypeList::Nil => false,
        TypeList::Cons(h, t) => occurs(v, *h) || occurs_list(v, *t),
    }
}

/// `t` with variable `v` replaced by `u`.
pub open spec fn replace(t: Type, v: u32, u: Type) -> Type
    decreases t,
{
    match t {
        Type::Var(w) => if v == w {
            u
        } else {
            t
        },
        Type::Collection(c, a) => Type::Collection(c, replace_list(a, v, u)),
        Type::Func(p, r) => Type::Func(replace_list(p, v, u), Box::new(replace(*r, v, u))),
        Type::Tuple(a) => Type::Tuple(replace_list(a, v, u)),
        Type::Enum(d, a) => Type::Enum(d, replace_list(a, v, u)),
        Type::Record(d, a) => Type::Record(d, replace_list(a, v, u)),
        _ => t,
    }
}

pub open spec fn replace_list(l: TypeList, v: u32, u: Type) -> TypeList
    decreases l,
{
    match l {
        TypeList::Nil => TypeList::Nil,
        TypeList::Cons(h, t) => TypeList::Cons(
            Box::new(replace(*h, v, u)),
            Box::new(replace_list(*t, v, u)),
        ),
    }
}

impl Type {
    pub fn has_var(&self, v: u32) -> (r: bool)
        ensures
            r == occurs(v, *self),
        decreases self,
    {
        match self {
            Type::Var(w) => v == *w,
            Type::Collection(_, a) => a.has_var(v),
            Type::Func(p, r) => p.has_var(v) || r.has_var(v),
            Type::Tuple(a) => a.has_var(v),
            Type::Enum(_, a) => a.has_var(v),
            Type::Record(_, a) => a.has_var(v),
            _ => false,
        }
    }

    pub fn replaced(&self, v: u32, u: &Type) -> (r: Type)
        ensures
            r == replace(*self, v, *u),
        decreases self,
    {
        match self {
            Type::Var(w) => if v == *w {
                u.dup()
            } else {
                self.dup()
            },
            Type::Collection(c, a) => Type::Collection(*c, a.replaced(v, u)),
            Type::Func(p, r) => Type::Func(p.replaced(v, u), Box::new(r.replaced(v, u))),
            Type::Tuple(a) => Type::Tuple(a.replaced(v, u)),
            Type::Enum(d, a) => Type::Enum(*d, a.replaced(v, u)),
            Type::Record(d, a) => Type::Record(*d, a.replaced(v, u)),
            _ => self.dup(),
        }
    }

    pub fn resolved(&self, s: &Vec<Option<Type>>) -> (r: Type)
        ensures
            r == apply(s@, *self),
        decreases self,
    {
        match self {
            Type::Var(v) => {
                if (*v as usize) < s.len() {
                    match &s[*v as usize] {
                        Some(t) => t.dup(),
                        None => self.dup(),
                    }
                } else {
                    self.dup()
                }
            },
            Type::Collection(c, a) => Type::Collection(*c, a.resolved(s)),
            Type::Func(p, r) => Type::Func(p.resolved(s), Box::new(r.resolved(s))),
            Type::Tuple(a) => Type::Tuple(a.resolved(s)),
            Type::Enum(d, a) => Type::Enum(*d, a.resolved(s)),
            Type::Record(d, a) => Type::Record(*d, a.resolved(s)),
            _ => self.dup(),
        }
    }
}

impl TypeList {
    pub fn has_var(&self, v: u32) -> (r: bool)
        ensures
            r == occurs_list(v, *self),
        decreases self,
    {
        match self {
            TypeList::Nil => false,
            TypeList::Cons(h, t) => h.has_var(v) || t.has_var(v),
        }
    }

    pub fn replaced(&self, v: u32, u: &Type) -> (r: TypeList)
        ensures
            r == replace_list(*self, v, *u),
        decreases self,
    {
        match self {
            TypeList::Nil => TypeList::Nil,
            TypeList::Cons(h, t) => TypeList::Cons(
                Box::new(h.replaced(v, u)),
                Box::new(t.replaced(v, u)),
            ),
        }
    }

    pub fn resolved(&self, s: &Vec<Option<Type>>) -> (r: TypeList)
        ensures
            r == apply_list(s@, *self),
        decreases self,
    {
        match self {
            TypeList::Nil => TypeList::Nil,
            TypeList::Cons(h, t) => TypeList::Cons(
                Box::new(h.resolved(s)),
                Box::new(t.resolved(s)),
            ),
        }
    }
}

impl Clone for Type {
    fn clone(&self) -> (r: Type)
        ensures
            r == *self,
    {
        self.dup()
    }
}

impl Clone for TypeList {
    fn clone(&self) -> (r: TypeList)
        ensures
            r == *self,
    {
        self.dup()
    }
}

} // verus!
