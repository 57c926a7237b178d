//! The definitions types refer to, type schemes, and how types are written.
use vstd::prelude::*;
use vstd::string::*;

use crate::source::{decimal, decimal_digits, text, text2, text3, Span};
use crate::types::{
    apply, EnumDefId, RecordDefId, ScalarType, Solution, Type, TypeList,
};
use crate::unify::{unify, unify_spec};

verus! {

/// One variant of an enum: its name and the types it carries.
#[derive(Debug)]
pub struct VariantDef {
    pub name: String,
    pub payload: TypeList,
}

/// An enum. A generic enum's payloads mention its parameters as variables.
#[derive(Debug)]
pub struct EnumDef {
    pub name: Option<String>,
    pub params: Vec<u32>,
    pub variants: Vec<VariantDef>,
}

/// One field of a record.
#[derive(Debug)]
pub struct FieldDef {
    pub name: String,
    pub ty: Type,
}

/// A record, with no name when it was never declared.
#[derive(Debug)]
pub struct RecordDef {
    pub name: Option<String>,
    pub params: Vec<u32>,
    pub fields: Vec<FieldDef>,
}

/// Every definition of a program, and what its type variables stand for.
#[derive(Debug)]
pub struct TypeDb {
    pub enums: Vec<EnumDef>,
    pub records: Vec<RecordDef>,
    pub solution: Vec<Option<Type>>,
}

pub ghost struct VariantView {
    pub name: Seq<char>,
    pub payload: TypeList,
}

pub ghost struct EnumView {
    pub name: Option<Seq<char>>,
    pub params: Seq<u32>,
    pub variants: Seq<VariantView>,
}

pub ghost struct FieldView {
    pub name: Seq<char>,
    pub ty: Type,
}

pub ghost struct RecordView {
    pub name: Option<Seq<char>>,
    pub params: Seq<u32>,
    pub fields: Seq<FieldView>,
}

pub ghost struct DbView {
    pub enums: Seq<EnumView>,
    pub records: Seq<RecordView>,
    pub solution: Solution,
}

impl View for VariantDef {
    type V = VariantView;

    open spec fn view(&self) -> VariantView {
        VariantView { name: self.name@, payload: self.payload }
    }
}

impl View for EnumDef {
    type V = EnumView;

    open spec fn view(&self) -> EnumView {
        EnumView {
            name: opt_text(self.name),
            params: self.params@,
            variants: self.variants@.map_values(|v: VariantDef| v@),
        }
    }
}

impl View for FieldDef {
    type V = FieldView;

    open spec fn view(&self) -> FieldView {
        FieldView { name: self.name@, ty: self.ty }
    }
}

/// The text an optional string holds.
pub open spec fn opt_text(s: Option<String>) -> Option<Seq<char>> {
    match s {
        Some(t) => Some(t@),
        None => None,
    }
}

impl View for RecordDef {
    type V = RecordView;

    open spec fn view(&self) -> RecordView {
        RecordView {
            name: opt_text(self.name),
            params: self.params@,
            fields: self.fields@.map_values(|f: FieldDef| f@),
        }
    }
}

impl View for TypeDb {
    type V = DbView;

    open spec fn view(&self) -> DbView {
        DbView {
            enums: self.enums@.map_values(|e: EnumDef| e@),
            records: self.records@.map_values(|r: RecordDef| r@),
            solution: self.solution@,
        }
    }
}

// ---------------------------------------------------------------------------
// Looking things up
// ---------------------------------------------------------------------------

/// The first position at which `names` holds `name`.
pub open spec fn first_named(names: Seq<Seq<char>>, name: Seq<char>) -> Option<nat>
    decreases names.len(),
{
    if names.len() == 0 {
        None
    } else {
        match first_named(names.drop_last(), name) {
            Some(i) => Some(i),
            None => if names.last() == name {
                Some((names.len() - 1) as nat)
            } else {
                None
            },
        }
    }
}

/// `first_named` answers the earliest match, and answers `None` only when
/// there is no match.
pub proof fn lemma_first_named(names: Seq<Seq<char>>, name: Seq<char>)
    ensures
        match first_named(names, name) {
            Some(i) => {
                &&& i < names.len()
                &&& names[i as int] == name
                &&& forall|j: int| 0 <= j < i ==> names[j] != name
            },
            None => forall|j: int| 0 <= j < names.len() ==> names[j] != name,
        },
    decreases names.len(),
{
    if names.len() > 0 {
        lemma_first_named(names.drop_last(), name);
        assert forall|j: int| 0 <= j < names.len() - 1 implies names[j] == names.drop_last()[j] by {
        }
    }
}

pub open spec fn variant_names(e: EnumView) -> Seq<Seq<char>> {
    e.variants.map_values(|v: VariantView| v.name)
}

pub open spec fn field_names(r: RecordView) -> Seq<Seq<char>> {
    r.fields.map_values(|f: FieldView| f.name)
}

impl EnumDef {
    /// The index of the variant called `name`.
    pub fn variant(&self, name: &String) -> (r: Option<usize>)
        ensures
            match first_named(variant_names(self@), name@) {
                Some(i) => r matches Some(k) && k == i && i < self.variants@.len(),
                None => r is None,
            },
    {
        let mut i: usize = 0;
        let ghost names = variant_names(self@);
        while i < self.variants.len()
            invariant
                i <= self.variants@.len(),
                names == variant_names(self@),
                first_named(names.take(i as int), name@) is None,
            decreases self.variants@.len() - i,
        {
            assert(names.take(i + 1).drop_last() =~= names.take(i as int));
            assert(names.take(i + 1).last() == self.variants@[i as int].name@);
            if self.variants[i].name == *name {
                proof {
                    lemma_first_prefix(names, name@, i + 1);
                }
                return Some(i);
            }
            i += 1;
        }
        assert(names.take(i as int) =~= names);
        None
    }
}

pub proof fn lemma_first_prefix(names: Seq<Seq<char>>, name: Seq<char>, n: int)
    requires
        0 <= n <= names.len(),
        first_named(names.take(n), name) is Some,
    ensures
        first_named(names, name) == first_named(names.take(n), name),
    decreases names.len(),
{
    if n == names.len() {
        assert(names.take(n) =~= names);
    } else {
        assert(names.drop_last().take(n) =~= names.take(n));
        lemma_first_prefix(names.drop_last(), name, n);
    }
}

impl RecordDef {
    /// The index of the field called `name`.
    pub fn field(&self, name: &String) -> (r: Option<usize>)
        ensures
            match first_named(field_names(self@), name@) {
                Some(i) => r matches Some(k) && k == i && i < self.fields@.len(),
                None => r is None,
            },
    {
        let mut i: usize = 0;
        let ghost names = field_names(self@);
        while i < self.fields.len()
            invariant
                i <= self.fields@.len(),
                names == field_names(self@),
                first_named(names.take(i as int), name@) is None,
            decreases self.fields@.len() - i,
        {
            assert(names.take(i + 1).drop_last() =~= names.take(i as int));
            assert(names.take(i + 1).last() == self.fields@[i as int].name@);
            if self.fields[i].name == *name {
                proof {
                    lemma_first_prefix(names, name@, i + 1);
                }
                return Some(i);
            }
            i += 1;
        }
        assert(names.take(i as int) =~= names);
        None
    }
}

/// The first position at which `vars` holds `v`.
pub open spec fn first_var(vars: Seq<u32>, v: u32) -> Option<nat>
    decreases vars.len(),
{
    if vars.len() == 0 {
        None
    } else {
        match first_var(vars.drop_last(), v) {
            Some(i) => Some(i),
            None => if vars.last() == v {
                Some((vars.len() - 1) as nat)
            } else {
                None
            },
        }
    }
}

proof fn lemma_var_prefix(vars: Seq<u32>, v: u32, n: int)
    requires
        0 <= n <= vars.len(),
        first_var(vars.take(n), v) is Some,
    ensures
        first_var(vars, v) == first_var(vars.take(n), v),
    decreases vars.len(),
{
    if n == vars.len() {
        assert(vars.take(n) =~= vars);
    } else {
        assert(vars.drop_last().take(n) =~= vars.take(n));
        lemma_var_prefix(vars.drop_last(), v, n);
    }
}

/// The position of `v` among `vars`.
pub fn var_position(vars: &Vec<u32>, v: u32) -> (r: Option<usize>)
    ensures
        match first_var(vars@, v) {
            Some(i) => r matches Some(k) && k == i && i < vars@.len(),
            None => r is None,
        },
{
    let mut i: usize = 0;
    while i < vars.len()
        invariant
            i <= vars@.len(),
            first_var(vars@.take(i as int), v) is None,
        decreases vars@.len() - i,
    {
        assert(vars@.take(i + 1).drop_last() =~= vars@.take(i as int));
        if vars[i] == v {
            proof {
                lemma_var_prefix(vars@, v, i + 1);
            }
            return Some(i);
        }
        i += 1;
    }
    assert(vars@.take(i as int) =~= vars@);
    None
}

// ---------------------------------------------------------------------------
// Parameters and arguments
// ---------------------------------------------------------------------------

/// `t` with each of `params` replaced by the argument in its place.
pub open spec fn fill_params(t: Type, params: Seq<u32>, args: Seq<Type>) -> Type
    decreases t,
{
    match t {
        Type::Var(v) => match first_var(params, v) {
            Some(i) => if i < args.len() {
                args[i as int]
            } else {
                t
            },
            None => t,
        },
        Type::Collection(c, a) => Type::Collection(c, fill_params_list(a, params, args)),
        Type::Func(p, r) => Type::Func(
            fill_params_list(p, params, args),
            Box::new(fill_params(*r, params, args)),
        ),
        Type::Tuple(a) => Type::Tuple(fill_params_list(a, params, args)),
        Type::Enum(d, a) => Type::Enum(d, fill_params_list(a, params, args)),
        Type::Record(d, a) => Type::Record(d, fill_params_list(a, params, args)),
        _ => t,
    }
}

pub open spec fn fill_params_list(l: TypeList, params: Seq<u32>, args: Seq<Type>) -> TypeList
    decreases l,
{
    match l {
        TypeList::Nil => TypeList::Nil,
        TypeList::Cons(h, t) => TypeList::Cons(
            Box::new(fill_params(*h, params, args)),
            Box::new(fill_params_list(*t, params, args)),
        ),
    }
}

impl Type {
    pub fn filled(&self, params: &Vec<u32>, args: &Vec<Type>) -> (r: Type)
        ensures
            r == fill_params(*self, params@, args@),
        decreases self,
    {
        match self {
            Type::Var(v) => match var_position(params, *v) {
                Some(i) => if i < args.len() {
                    args[i].dup()
                } else {
                    self.dup()
                },
                None => self.dup(),
            },
            Type::Collection(c, a) => Type::Collection(*c, a.filled(params, args)),
            Type::Func(p, r) => Type::Func(p.filled(params, args), Box::new(r.filled(params, args))),
            Type::Tuple(a) => Type::Tuple(a.filled(params, args)),
            Type::Enum(d, a) => Type::Enum(*d, a.filled(params, args)),
            Type::Record(d, a) => Type::Record(*d, a.filled(params, args)),
            _ => self.dup(),
        }
    }
}

impl TypeList {
    pub fn filled(&self, params: &Vec<u32>, args: &Vec<Type>) -> (r: TypeList)
        ensures
            r == fill_params_list(*self, params@, args@),
        decreases self,
    {
        match self {
            TypeList::Nil => TypeList::Nil,
            TypeList::Cons(h, t) => TypeList::Cons(
                Box::new(h.filled(params, args)),
                Box::new(t.filled(params, args)),
            ),
        }
    }
}

impl DbView {
    /// `t` with every solved variable replaced.
    pub open spec fn resolve(self, t: Type) -> Type {
        apply(self.solution, t)
    }

    /// The definition of enum `d`, when there is one.
    pub open spec fn enum_def(self, d: EnumDefId) -> Option<EnumView> {
        if d.0 < self.enums.len() {
            Some(self.enums[d.0 as int])
        } else {
            None
        }
    }

    /// The definition of record `d`, when there is one.
    pub open spec fn record_def(self, d: RecordDefId) -> Option<RecordView> {
        if d.0 < self.records.len() {
            Some(self.records[d.0 as int])
        } else {
            None
        }
    }

    /// The index of the variant of `d` called `name`.
    pub open spec fn variant_index(self, d: EnumDefId, name: Seq<char>) -> Option<nat> {
        match self.enum_def(d) {
            Some(e) => first_named(variant_names(e), name),
            None => None,
        }
    }

    /// The index of the field of `d` called `name`.
    pub open spec fn field_index(self, d: RecordDefId, name: Seq<char>) -> Option<nat> {
        match self.record_def(d) {
            Some(r) => first_named(field_names(r), name),
            None => None,
        }
    }

    /// The payload of variant `i` of `d` at the arguments `args`.
    pub open spec fn payload_of(self, d: EnumDefId, args: TypeList, i: nat) -> Seq<Type> {
        match self.enum_def(d) {
            Some(e) => if i < e.variants.len() {
                fill_params_list(e.variants[i as int].payload, e.params, args.seq()).seq()
            } else {
                Seq::empty()
            },
            None => Seq::empty(),
        }
    }

    /// The type of field `i` of `d` at the arguments `args`.
    pub open spec fn field_type(self, d: RecordDefId, args: TypeList, i: nat) -> Type {
        match self.record_def(d) {
            Some(r) => if i < r.fields.len() {
                fill_params(r.fields[i as int].ty, r.params, args.seq())
            } else {
                Type::Unit
            },
            None => Type::Unit,
        }
    }

    /// How many fields `d` has.
    pub open spec fn field_count(self, d: RecordDefId) -> nat {
        match self.record_def(d) {
            Some(r) => r.fields.len(),
            None => 0,
        }
    }
}

impl TypeDb {
    /// A database with no definitions and no variables.
    pub fn new() -> (r: TypeDb)
        ensures
            r@ == (DbView { enums: Seq::empty(), records: Seq::empty(), solution: Seq::empty() }),
    {
        let r = TypeDb { enums: Vec::new(), records: Vec::new(), solution: Vec::new() };
        assert(r@.enums =~= Seq::empty());
        assert(r@.records =~= Seq::empty());
        r
    }

    /// `t` with links followed at every level.
    pub fn deep_resolve(&self, t: &Type) -> (r: Type)
        ensures
            r == self@.resolve(*t),
    {
        t.resolved(&self.solution)
    }

    pub fn variant_index(&self, d: EnumDefId, name: &String) -> (r: Option<usize>)
        ensures
            match self@.variant_index(d, name@) {
                Some(i) => r matches Some(k) && k == i && i < self@.enums[d.0 as int].variants.len(),
                None => r is None,
            },
    {
        if (d.0 as usize) < self.enums.len() {
            assert(self@.enums[d.0 as int] == self.enums@[d.0 as int]@);
            self.enums[d.0 as usize].variant(name)
        } else {
            None
        }
    }

    pub fn field_index(&self, d: RecordDefId, name: &String) -> (r: Option<usize>)
        ensures
            match self@.field_index(d, name@) {
                Some(i) => r matches Some(k) && k == i && i < self@.records[d.0 as int].fields.len(),
                None => r is None,
            },
    {
        if (d.0 as usize) < self.records.len() {
            assert(self@.records[d.0 as int] == self.records@[d.0 as int]@);
            self.records[d.0 as usize].field(name)
        } else {
            None
        }
    }

    pub fn payload_of(&self, d: EnumDefId, args: &TypeList, i: usize) -> (r: Vec<Type>)
        ensures
            r@ == self@.payload_of(d, *args, i as nat),
    {
        if (d.0 as usize) < self.enums.len() {
            let e = &self.enums[d.0 as usize];
            assert(self@.enums[d.0 as int] == e@);
            if i < e.variants.len() {
                assert(e@.variants[i as int] == e.variants@[i as int]@);
                return e.variants[i].payload.filled(&e.params, &args.to_vec()).to_vec();
            }
        }
        let r: Vec<Type> = Vec::new();
        assert(r@ =~= Seq::empty());
        r
    }

    pub fn field_type(&self, d: RecordDefId, args: &TypeList, i: usize) -> (r: Type)
        ensures
            r == self@.field_type(d, *args, i as nat),
    {
        if (d.0 as usize) < self.records.len() {
            let e = &self.records[d.0 as usize];
            assert(self@.records[d.0 as int] == e@);
            if i < e.fields.len() {
                assert(e@.fields[i as int] == e.fields@[i as int]@);
                return e.fields[i].ty.filled(&e.params, &args.to_vec());
            }
        }
        Type::Unit
    }

    pub fn field_count(&self, d: RecordDefId) -> (r: usize)
        ensures
            r == self@.field_count(d),
    {
        if (d.0 as usize) < self.records.len() {
            assert(self@.records[d.0 as int] == self.records@[d.0 as int]@);
            self.records[d.0 as usize].fields.len()
        } else {
            0
        }
    }

    /// Makes `a` and `b` equal, or answers `false` and changes nothing.
    pub fn unify(&mut self, a: &Type, b: &Type) -> (r: bool)
        ensures
            match unify_spec(old(self)@.solution, *a, *b) {
                Some(next) => r && final(self)@ == (DbView { solution: next, ..old(self)@ }),
                None => !r && final(self)@ == old(self)@,
            },
    {
        unify(&mut self.solution, a, b)
    }

    /// A variable that nothing has mentioned yet.
    pub fn fresh_var(&mut self) -> (r: Type)
        ensures
            r == fresh_spec(old(self)@).0,
            final(self)@ == fresh_spec(old(self)@).1,
    {
        let n: usize = self.solution.len();
        if n < u32::MAX as usize {
            self.solution.push(None);
            Type::Var(n as u32)
        } else {
            Type::Var(u32::MAX)
        }
    }
}

/// A variable that `db` does not know, and `db` knowing it. When the variables
/// have run out, the last one is answered again.
pub open spec fn fresh_spec(db: DbView) -> (Type, DbView) {
    let n = db.solution.len();
    if n < u32::MAX {
        (Type::Var(n as u32), DbView { solution: db.solution.push(None), ..db })
    } else {
        (Type::Var(u32::MAX), db)
    }
}

// ---------------------------------------------------------------------------
// Schemes
// ---------------------------------------------------------------------------

/// What a type has to support.
#[derive(Clone, Copy, Debug, PartialEq, Eq, Structural)]
pub enum Capability {
    Equatable,
    Orderable,
    Numeric,
    Hashable,
    /// Iterating it yields the requirement's other type.
    Iterable,
    /// Subscripting it yields the requirement's other type.
    Indexable,
}

/// A requirement on a type that is not decided yet.
#[derive(Debug)]
pub struct Need {
    pub what: Capability,
    pub ty: Type,
    pub other: Type,
    /// Where in a function's body it arose, for one a caller has to meet.
    pub from: Option<Span>,
}

impl Need {
    pub fn dup(&self) -> (r: Need)
        ensures
            r == *self,
    {
        Need { what: self.what, ty: self.ty.dup(), other: self.other.dup(), from: self.from }
    }
}

/// A type with the variables each use chooses for itself, and what it has to
/// choose them to support.
#[derive(Debug)]
pub struct Scheme {
    pub binders: Vec<u32>,
    pub body: Type,
    pub needs: Vec<Need>,
}

pub ghost struct SchemeView {
    pub binders: Seq<u32>,
    pub body: Type,
    pub needs: Seq<Need>,
}

impl View for Scheme {
    type V = SchemeView;

    open spec fn view(&self) -> SchemeView {
        SchemeView { binders: self.binders@, body: self.body, needs: self.needs@ }
    }
}

/// The scheme an optional scheme holds.
pub open spec fn opt_scheme(s: Option<Scheme>) -> Option<SchemeView> {
    match s {
        Some(t) => Some(t@),
        None => None,
    }
}

/// The scheme of a binding that has one type.
pub open spec fn monotype(t: Type) -> SchemeView {
    SchemeView { binders: Seq::empty(), body: t, needs: Seq::empty() }
}

impl Scheme {
    pub fn monotype(t: Type) -> (r: Scheme)
        ensures
            r@ == monotype(t),
    {
        let r = Scheme { binders: Vec::new(), body: t, needs: Vec::new() };
        assert(r@.binders =~= Seq::empty());
        assert(r@.needs =~= Seq::empty());
        r
    }

    /// Whether uses may choose differently.
    pub fn is_polymorphic(&self) -> (r: bool)
        ensures
            r == (self@.binders.len() > 0),
    {
        self.binders.len() > 0
    }

    pub fn dup(&self) -> (r: Scheme)
        ensures
            r@ == self@,
    {
        let mut needs: Vec<Need> = Vec::new();
        let mut i: usize = 0;
        while i < self.needs.len()
            invariant
                i <= self.needs@.len(),
                needs@ == self.needs@.take(i as int),
            decreases self.needs@.len() - i,
        {
            needs.push(self.needs[i].dup());
            assert(needs@ =~= self.needs@.take(i + 1));
            i += 1;
        }
        assert(needs@ =~= self.needs@);
        Scheme { binders: copy_vars(&self.binders), body: self.body.dup(), needs }
    }
}

pub fn copy_vars(v: &Vec<u32>) -> (r: Vec<u32>)
    ensures
        r@ == v@,
{
    let mut out: Vec<u32> = Vec::new();
    let mut i: usize = 0;
    while i < v.len()
        invariant
            i <= v@.len(),
            out@ == v@.take(i as int),
        decreases v@.len() - i,
    {
        out.push(v[i]);
        assert(out@ =~= v@.take(i + 1));
        i += 1;
    }
    assert(out@ =~= v@);
    out
}

// ---------------------------------------------------------------------------
// Writing types
// ---------------------------------------------------------------------------

/// `vars` and then the variables of `t`, each once.
pub open spec fn vars_of(t: Type, vars: Seq<u32>) -> Seq<u32>
    decreases t,
{
    match t {
        Type::Var(v) => if first_var(vars, v) is None {
            vars.push(v)
        } else {
            vars
        },
        Type::Collection(_, a) => vars_of_list(a, vars),
        Type::Func(p, r) => vars_of(*r, vars_of_list(p, vars)),
        Type::Tuple(a) => vars_of_list(a, vars),
        Type::Enum(_, a) => vars_of_list(a, vars),
        Type::Record(_, a) => vars_of_list(a, vars),
        _ => vars,
    }
}

pub open spec fn vars_of_list(l: TypeList, vars: Seq<u32>) -> Seq<u32>
    decreases l,
{
    match l {
        TypeList::Nil => vars,
        TypeList::Cons(h, t) => vars_of_list(*t, vars_of(*h, vars)),
    }
}

pub fn collect_vars(t: &Type, vars: &mut Vec<u32>)
    ensures
        final(vars)@ == vars_of(*t, old(vars)@),
    decreases t,
{
    match t {
        Type::Var(v) => {
            if var_position(vars, *v).is_none() {
                vars.push(*v);
            }
        },
        Type::Collection(_, a) => collect_list_vars(a, vars),
        Type::Func(p, r) => {
            collect_list_vars(p, vars);
            collect_vars(r, vars);
        },
        Type::Tuple(a) => collect_list_vars(a, vars),
        Type::Enum(_, a) => collect_list_vars(a, vars),
        Type::Record(_, a) => collect_list_vars(a, vars),
        _ => {},
    }
}

fn collect_list_vars(l: &TypeList, vars: &mut Vec<u32>)
    ensures
        final(vars)@ == vars_of_list(*l, old(vars)@),
    decreases l,
{
    match l {
        TypeList::Nil => {},
        TypeList::Cons(h, t) => {
            collect_vars(h, vars);
            collect_list_vars(t, vars);
        },
    }
}

/// The name of the `i`th variable.
pub open spec fn binder_name(i: nat) -> Seq<char> {
    if i < 7 {
        seq!["TUVWXYZ"@[i as int]]
    } else {
        "T"@ + decimal_digits(i)
    }
}

pub open spec fn scalar_name(s: ScalarType) -> Seq<char> {
    match s {
        ScalarType::Int => "Int"@,
        ScalarType::Float => "Float"@,
        ScalarType::Bool => "Bool"@,
        ScalarType::Char => "Char"@,
        ScalarType::Text => "Text"@,
    }
}

/// How variables are written: by their places, the first `bound` as they are and
/// the others as unknown.
pub ghost struct VarNames {
    pub vars: Seq<u32>,
    pub bound: nat,
}

pub open spec fn var_name(names: VarNames, v: u32) -> Seq<char> {
    match first_var(names.vars, v) {
        Some(i) => if i < names.bound {
            binder_name(i)
        } else {
            "?"@ + binder_name(i)
        },
        None => "?"@ + decimal_digits(v as nat),
    }
}

/// How many shapes without a name can stand inside one another.
pub open spec fn shape_count(db: DbView) -> nat {
    db.records.len() + db.enums.len()
}

/// `t` as it is written. A shape without a name is written with its fields or
/// its variants, `depth` such shapes deep.
pub open spec fn render(db: DbView, names: VarNames, depth: nat, t: Type) -> Seq<char>
    decreases 2 * depth, t, 0nat,
{
    match t {
        Type::Scalar(s) => scalar_name(s),
        Type::Unit => "Unit"@,
        Type::Never => "Never"@,
        Type::Var(v) => var_name(names, v),
        Type::Collection(c, a) => c.spec_name() + render_args(db, names, depth, a),
        Type::Func(p, r) => "("@ + render_list(db, names, depth, p) + ") -> "@ + render(
            db,
            names,
            depth,
            *r,
        ),
        Type::Tuple(a) => "("@ + render_list(db, names, depth, a) + ")"@,
        Type::Enum(d, a) => match db.enum_def(d) {
            Some(e) => match e.name {
                Some(n) => n + render_args(db, names, depth, a),
                None => if depth > 0 {
                    "{ "@ + render_variants(db, names, (depth - 1) as nat, e.variants) + " }"@
                } else {
                    "{ ... }"@
                },
            },
            None => "?"@,
        },
        Type::Record(d, a) => match db.record_def(d) {
            Some(r) => match r.name {
                Some(n) => n + render_args(db, names, depth, a),
                None => if depth > 0 {
                    "{ "@ + render_fields(db, names, (depth - 1) as nat, r.fields) + " }"@
                } else {
                    "{ ... }"@
                },
            },
            None => "?"@,
        },
    }
}

pub open spec fn render_list(db: DbView, names: VarNames, depth: nat, l: TypeList) -> Seq<char>
    decreases 2 * depth, l, 0nat,
{
    match l {
        TypeList::Nil => Seq::empty(),
        TypeList::Cons(h, t) => if *t is Nil {
            render(db, names, depth, *h)
        } else {
            render(db, names, depth, *h) + ", "@ + render_list(db, names, depth, *t)
        },
    }
}

pub open spec fn render_args(db: DbView, names: VarNames, depth: nat, l: TypeList) -> Seq<char>
    decreases 2 * depth, l, 1nat,
{
    if l is Nil {
        Seq::empty()
    } else {
        "["@ + render_list(db, names, depth, l) + "]"@
    }
}

pub open spec fn render_fields(
    db: DbView,
    names: VarNames,
    depth: nat,
    fields: Seq<FieldView>,
) -> Seq<char>
    decreases 2 * depth + 1, fields, 0nat,
{
    if fields.len() == 0 {
        Seq::empty()
    } else {
        let one = fields.last().name + ": "@ + render(db, names, depth, fields.last().ty);
        if fields.len() == 1 {
            one
        } else {
            render_fields(db, names, depth, fields.drop_last()) + ", "@ + one
        }
    }
}

/// One variant, with what it carries.
pub open spec fn render_variant(db: DbView, names: VarNames, depth: nat, v: VariantView) -> Seq<char>
    decreases 2 * depth + 1, v, 0nat,
{
    if v.payload is Nil {
        v.name
    } else {
        v.name + "("@ + render_list(db, names, depth, v.payload) + ")"@
    }
}

pub open spec fn render_variants(
    db: DbView,
    names: VarNames,
    depth: nat,
    variants: Seq<VariantView>,
) -> Seq<char>
    decreases 2 * depth + 1, variants, 0nat,
{
    if variants.len() == 0 {
        Seq::empty()
    } else {
        let one = render_variant(db, names, depth, variants.last());
        if variants.len() == 1 {
            one
        } else {
            render_variants(db, names, depth, variants.drop_last()) + " | "@ + one
        }
    }
}

/// A type as it is written, its variables unknown.
pub open spec fn render_type(db: DbView, t: Type) -> Seq<char> {
    let resolved = db.resolve(t);
    render(
        db,
        VarNames { vars: vars_of(resolved, Seq::empty()), bound: 0 },
        shape_count(db),
        resolved,
    )
}

/// A scheme as it is written.
pub open spec fn render_scheme(db: DbView, s: SchemeView) -> Seq<char> {
    let resolved = db.resolve(s.body);
    let body = render(
        db,
        VarNames { vars: vars_of(resolved, s.binders), bound: s.binders.len() },
        shape_count(db),
        resolved,
    );
    if s.binders.len() == 0 {
        body
    } else {
        "forall"@ + render_binders(s.binders.len()) + ". "@ + body
    }
}

/// The first `n` quantified variables, each after a space.
pub open spec fn render_binders(n: nat) -> Seq<char>
    decreases n,
{
    if n == 0 {
        Seq::empty()
    } else {
        render_binders((n - 1) as nat) + " "@ + binder_name((n - 1) as nat)
    }
}

fn binder_text(i: usize) -> (r: String)
    ensures
        r@ == binder_name(i as nat),
{
    proof {
        reveal_strlit("TUVWXYZ");
        reveal_strlit("T");
        reveal_strlit("U");
        reveal_strlit("V");
        reveal_strlit("W");
        reveal_strlit("X");
        reveal_strlit("Y");
        reveal_strlit("Z");
    }
    if i < 7 {
        let r = match i {
            0 => "T",
            1 => "U",
            2 => "V",
            3 => "W",
            4 => "X",
            5 => "Y",
            _ => "Z",
        };
        assert(r@ =~= binder_name(i as nat));
        text(r)
    } else {
        text2("T", &decimal(i as u64))
    }
}

fn scalar_text(s: ScalarType) -> (r: &'static str)
    ensures
        r@ == scalar_name(s),
{
    match s {
        ScalarType::Int => "Int",
        ScalarType::Float => "Float",
        ScalarType::Bool => "Bool",
        ScalarType::Char => "Char",
        ScalarType::Text => "Text",
    }
}

/// How variables are written.
struct Naming {
    vars: Vec<u32>,
    bound: usize,
}

impl Naming {
    spec fn seen(self) -> VarNames {
        VarNames { vars: self.vars@, bound: self.bound as nat }
    }

    fn write(&self, v: u32) -> (r: String)
        ensures
            r@ == var_name(self.seen(), v),
    {
        match var_position(&self.vars, v) {
            Some(i) => if i < self.bound {
                binder_text(i)
            } else {
                text2("?", &binder_text(i))
            },
            None => text2("?", &decimal(v as u64)),
        }
    }
}

impl TypeDb {
    fn shape_depth(&self) -> (r: u128)
        ensures
            r == shape_count(self@),
    {
        self.records.len() as u128 + self.enums.len() as u128
    }

    /// `t` as it is written.
    pub fn render(&self, t: &Type) -> (r: String)
        ensures
            r@ == render_type(self@, *t),
    {
        let resolved = self.deep_resolve(t);
        let mut vars: Vec<u32> = Vec::new();
        assert(vars@ =~= Seq::empty());
        collect_vars(&resolved, &mut vars);
        let names = Naming { vars, bound: 0 };
        self.render_in(&names, self.shape_depth(), &resolved)
    }

    /// A scheme as it is written.
    pub fn render_scheme(&self, s: &Scheme) -> (r: String)
        ensures
            r@ == render_scheme(self@, s@),
    {
        let resolved = self.deep_resolve(&s.body);
        let mut vars = copy_vars(&s.binders);
        collect_vars(&resolved, &mut vars);
        let n: usize = s.binders.len();
        let naming = Naming { vars, bound: n };
        let body = self.render_in(&naming, self.shape_depth(), &resolved);
        if n == 0 {
            return body;
        }
        let mut names = String::new();
        let mut i: usize = 0;
        assert(names@ =~= render_binders(0));
        while i < n
            invariant
                i <= n,
                names@ == render_binders(i as nat),
            decreases n - i,
        {
            names.append(" ");
            names.append(&binder_text(i));
            i += 1;
        }
        let mut r = text2("forall", &names);
        r.append(". ");
        r.append(&body);
        r
    }

    fn render_in(&self, names: &Naming, depth: u128, t: &Type) -> (r: String)
        ensures
            r@ == render(self@, names.seen(), depth as nat, *t),
        decreases 2 * depth, t, 0nat,
    {
        match t {
            Type::Scalar(s) => text(scalar_text(*s)),
            Type::Unit => text("Unit"),
            Type::Never => text("Never"),
            Type::Var(v) => names.write(*v),
            Type::Collection(c, a) => {
                let args = self.render_args_in(names, depth, a);
                text2(c.name(), &args)
            },
            Type::Func(p, q) => {
                let ps = self.render_list_in(names, depth, p);
                let result = self.render_in(names, depth, q);
                let mut r = text3("(", &ps, ") -> ");
                r.append(&result);
                r
            },
            Type::Tuple(a) => {
                let inner = self.render_list_in(names, depth, a);
                text3("(", &inner, ")")
            },
            Type::Enum(d, a) => {
                if (d.0 as usize) < self.enums.len() {
                    let e = &self.enums[d.0 as usize];
                    assert(self@.enums[d.0 as int] == e@);
                    match &e.name {
                        Some(n) => {
                            let args = self.render_args_in(names, depth, a);
                            text2(n, &args)
                        },
                        None => if depth > 0 {
                            let inner = self.render_variants_in(
                                names,
                                depth - 1,
                                d.0 as usize,
                                e.variants.len(),
                            );
                            assert(e@.variants.take(e.variants@.len() as int) =~= e@.variants);
                            text3("{ ", &inner, " }")
                        } else {
                            text("{ ... }")
                        },
                    }
                } else {
                    text("?")
                }
            },
            Type::Record(d, a) => {
                if (d.0 as usize) < self.records.len() {
                    let e = &self.records[d.0 as usize];
                    assert(self@.records[d.0 as int] == e@);
                    match &e.name {
                        Some(n) => {
                            let args = self.render_args_in(names, depth, a);
                            text2(n, &args)
                        },
                        None => if depth > 0 {
                            let inner = self.render_fields_in(
                                names,
                                depth - 1,
                                d.0 as usize,
                                e.fields.len(),
                            );
                            assert(e@.fields.take(e.fields@.len() as int) =~= e@.fields);
                            text3("{ ", &inner, " }")
                        } else {
                            text("{ ... }")
                        },
                    }
                } else {
                    text("?")
                }
            },
        }
    }

    fn render_list_in(&self, names: &Naming, depth: u128, l: &TypeList) -> (r: String)
        ensures
            r@ == render_list(self@, names.seen(), depth as nat, *l),
        decreases 2 * depth, l, 0nat,
    {
        match l {
            TypeList::Nil => {
                let r = String::new();
                assert(r@ =~= Seq::empty());
                r
            },
            TypeList::Cons(h, t) => {
                let first = self.render_in(names, depth, h);
                match &**t {
                    TypeList::Nil => first,
                    _ => {
                        let rest = self.render_list_in(names, depth, t);
                        text3(&first, ", ", &rest)
                    },
                }
            },
        }
    }

    fn render_args_in(&self, names: &Naming, depth: u128, l: &TypeList) -> (r: String)
        ensures
            r@ == render_args(self@, names.seen(), depth as nat, *l),
        decreases 2 * depth, l, 1nat,
    {
        match l {
            TypeList::Nil => {
                let r = String::new();
                assert(r@ =~= Seq::empty());
                r
            },
            _ => {
                let inner = self.render_list_in(names, depth, l);
                text3("[", &inner, "]")
            },
        }
    }

    /// The first `n` fields of record `d`.
    fn render_fields_in(&self, names: &Naming, depth: u128, d: usize, n: usize) -> (r: String)
        requires
            d < self.records@.len(),
            n <= self.records@[d as int].fields@.len(),
        ensures
            r@ == render_fields(
                self@,
                names.seen(),
                depth as nat,
                self.records@[d as int]@.fields.take(n as int),
            ),
        decreases 2 * depth + 1, self.records@[d as int]@.fields.take(n as int), 0nat,
    {
        let ghost fields = self.records@[d as int]@.fields;
        if n == 0 {
            let r = String::new();
            assert(r@ =~= Seq::empty());
            return r;
        }
        let f = &self.records[d].fields[n - 1];
        assert(fields.take(n as int).last() == f@);
        assert(fields.take(n as int).drop_last() =~= fields.take(n - 1));
        let ty = self.render_in(names, depth, &f.ty);
        let one = text3(&f.name, ": ", &ty);
        if n == 1 {
            one
        } else {
            let before = self.render_fields_in(names, depth, d, n - 1);
            text3(&before, ", ", &one)
        }
    }

    fn render_variant_in(&self, names: &Naming, depth: u128, v: &VariantDef) -> (r: String)
        ensures
            r@ == render_variant(self@, names.seen(), depth as nat, v@),
        decreases 2 * depth + 1, v@, 0nat,
    {
        match &v.payload {
            TypeList::Nil => text(&v.name),
            l => {
                let inner = self.render_list_in(names, depth, l);
                let mut r = text3(&v.name, "(", &inner);
                r.append(")");
                r
            },
        }
    }

    /// The first `n` variants of enum `d`.
    fn render_variants_in(&self, names: &Naming, depth: u128, d: usize, n: usize) -> (r: String)
        requires
            d < self.enums@.len(),
            n <= self.enums@[d as int].variants@.len(),
        ensures
            r@ == render_variants(
                self@,
                names.seen(),
                depth as nat,
                self.enums@[d as int]@.variants.take(n as int),
            ),
        decreases 2 * depth + 1, self.enums@[d as int]@.variants.take(n as int), 0nat,
    {
        let ghost variants = self.enums@[d as int]@.variants;
        if n == 0 {
            let r = String::new();
            assert(r@ =~= Seq::empty());
            return r;
        }
        let v = &self.enums[d].variants[n - 1];
        assert(variants.take(n as int).last() == v@);
        assert(variants.take(n as int).drop_last() =~= variants.take(n - 1));
        let one = self.render_variant_in(names, depth, v);
        if n == 1 {
            one
        } else {
            let before = self.render_variants_in(names, depth, d, n - 1);
            text3(&before, " | ", &one)
        }
    }
}

impl Clone for Need {
    fn clone(&self) -> (r: Need)
        ensures
            r == *self,
    {
        self.dup()
    }
}

impl Clone for Scheme {
    fn clone(&self) -> (r: Scheme)
        ensures
            r@ == self@,
    {
        self.dup()
    }
}

} // verus!
