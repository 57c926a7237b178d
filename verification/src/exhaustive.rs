//! Whether the arms of a `match` cover every value, and whether each adds to
//! what the arms before it cover.
use vstd::prelude::*;
use vstd::string::*;

use crate::ast::{Expr, ExprKind, MatchArm, SourceFile};
use crate::descend::{descendants, file_descendants, visits, Seen, Visit};
use crate::pattern::{
    build_spec, merge_pattern_diagnostics, merged, variants_numbered, PatternBuilder, PatternEnv,
};
use crate::source::{
    diag_views, error_at, push_diag, text, DiagCode, DiagView, Diagnostic, FileId, FileSpan,
};
use crate::symbol::SymbolId;
use crate::tables::{at, NodeKey, NodeMap, SpanMap};
use crate::tree::{
    lemma_pattern_views_index, pattern_view, pattern_views, Lit, LitView, PatternView, TypedPattern,
};
use crate::typedb::{DbView, TypeDb};
use crate::types::{EnumDefId, RecordDefId, ScalarType, Type, TypeList};
use crate::witness::{describe_gap, find_witness, gap_message, witness};

verus! {

/// The characters of a text.
#[derive(Debug)]
pub enum Chars {
    Nil,
    Cons(char, Box<Chars>),
}

/// What a pattern tests a value for.
#[derive(Debug)]
pub enum Key {
    Variant(EnumDefId, u32),
    Tuple,
    Record(RecordDefId),
    Bool(bool),
    Int(i64),
    Float(u64),
    Char(u32),
    Text(Chars),
    Unit,
}

/// A pattern, as coverage sees it: anything, or a test and what the components
/// are tested for.
#[derive(Debug)]
pub enum Cover {
    Any,
    Test(Key, Row),
}

/// Patterns side by side.
#[derive(Debug)]
pub enum Row {
    Nil,
    Cons(Box<Cover>, Box<Row>),
}

/// Rows one below the other.
#[derive(Debug)]
pub enum Rows {
    Nil,
    Cons(Row, Box<Rows>),
}

/// Tests made of one value.
#[derive(Debug)]
pub enum Keys {
    Nil,
    Cons(Key, Box<Keys>),
}

impl Chars {
    fn same(&self, other: &Chars) -> (r: bool)
        ensures
            r == (*self == *other),
        decreases self,
    {
        match (self, other) {
            (Chars::Nil, Chars::Nil) => true,
            (Chars::Cons(a, x), Chars::Cons(b, y)) => *a == *b && x.same(y),
            _ => false,
        }
    }

    fn dup(&self) -> (r: Chars)
        ensures
            r == *self,
        decreases self,
    {
        match self {
            Chars::Nil => Chars::Nil,
            Chars::Cons(c, rest) => Chars::Cons(*c, Box::new(rest.dup())),
        }
    }

    pub open spec fn of(s: Seq<char>) -> Chars
        decreases s.len(),
    {
        if s.len() == 0 {
            Chars::Nil
        } else {
            Chars::Cons(s[0], Box::new(Chars::of(s.skip(1))))
        }
    }
}

/// Two texts are tested for alike exactly when they are the same.
pub proof fn lemma_chars_injective(a: Seq<char>, b: Seq<char>)
    requires
        Chars::of(a) == Chars::of(b),
    ensures
        a == b,
    decreases a.len(),
{
    if a.len() > 0 && b.len() > 0 {
        lemma_chars_injective(a.skip(1), b.skip(1));
        assert(a =~= seq![a[0]] + a.skip(1));
        assert(b =~= seq![b[0]] + b.skip(1));
    } else {
        assert(a =~= b);
    }
}

fn chars_of(s: &String) -> (r: Chars)
    ensures
        r == Chars::of(s@),
{
    let word = s.as_str();
    let n: usize = word.unicode_len();
    let mut out = Chars::Nil;
    let mut i: usize = n;
    assert(s@.skip(i as int) =~= Seq::empty());
    while i > 0
        invariant
            i <= n,
            n == s@.len(),
            word@ == s@,
            out == Chars::of(s@.skip(i as int)),
        decreases i,
    {
        i -= 1;
        assert(s@.skip(i as int).skip(1) =~= s@.skip(i + 1));
        out = Chars::Cons(word.get_char(i), Box::new(out));
    }
    assert(s@.skip(0) =~= s@);
    out
}

impl Key {
    fn same(&self, other: &Key) -> (r: bool)
        ensures
            r == (*self == *other),
    {
        match (self, other) {
            (Key::Variant(d, i), Key::Variant(e, j)) => *d == *e && *i == *j,
            (Key::Tuple, Key::Tuple) => true,
            (Key::Record(a), Key::Record(b)) => a.0 == b.0,
            (Key::Bool(a), Key::Bool(b)) => *a == *b,
            (Key::Int(a), Key::Int(b)) => *a == *b,
            (Key::Float(a), Key::Float(b)) => *a == *b,
            (Key::Char(a), Key::Char(b)) => *a == *b,
            (Key::Text(a), Key::Text(b)) => a.same(b),
            (Key::Unit, Key::Unit) => true,
            _ => false,
        }
    }

    pub(crate) fn dup(&self) -> (r: Key)
        ensures
            r == *self,
    {
        match self {
            Key::Variant(d, i) => Key::Variant(*d, *i),
            Key::Tuple => Key::Tuple,
            Key::Record(d) => Key::Record(*d),
            Key::Bool(b) => Key::Bool(*b),
            Key::Int(n) => Key::Int(*n),
            Key::Float(n) => Key::Float(*n),
            Key::Char(n) => Key::Char(*n),
            Key::Text(t) => Key::Text(t.dup()),
            Key::Unit => Key::Unit,
        }
    }
}

impl Cover {
    fn dup(&self) -> (r: Cover)
        ensures
            r == *self,
        decreases self,
    {
        match self {
            Cover::Any => Cover::Any,
            Cover::Test(k, subs) => Cover::Test(k.dup(), subs.dup()),
        }
    }
}

impl Row {
    fn dup(&self) -> (r: Row)
        ensures
            r == *self,
        decreases self,
    {
        match self {
            Row::Nil => Row::Nil,
            Row::Cons(h, t) => Row::Cons(Box::new(h.dup()), Box::new(t.dup())),
        }
    }

    pub open spec fn spec_len(self) -> nat
        decreases self,
    {
        match self {
            Row::Nil => 0,
            Row::Cons(_, t) => 1 + t.spec_len(),
        }
    }

    /// This row and then `other`.
    pub open spec fn spec_join(self, other: Row) -> Row
        decreases self,
    {
        match self {
            Row::Nil => other,
            Row::Cons(h, t) => Row::Cons(h, Box::new(t.spec_join(other))),
        }
    }

    fn join(&self, other: &Row) -> (r: Row)
        ensures
            r == self.spec_join(*other),
        decreases self,
    {
        match self {
            Row::Nil => other.dup(),
            Row::Cons(h, t) => Row::Cons(Box::new(h.dup()), Box::new(t.join(other))),
        }
    }
}

/// `n` wildcards and then `rest`.
pub open spec fn anys(n: nat, rest: Row) -> Row
    decreases n,
{
    if n == 0 {
        rest
    } else {
        Row::Cons(Box::new(Cover::Any), Box::new(anys((n - 1) as nat, rest)))
    }
}

pub(crate) fn with_anys(n: usize, rest: &Row) -> (r: Row)
    ensures
        r == anys(n as nat, *rest),
    decreases n,
{
    if n == 0 {
        rest.dup()
    } else {
        Row::Cons(Box::new(Cover::Any), Box::new(with_anys(n - 1, rest)))
    }
}

/// The rows that a value passing the test `key` can still match, with the
/// value's `n` components in its place.
pub open spec fn specialized(key: Key, n: nat, rows: Rows) -> Rows
    decreases rows,
{
    match rows {
        Rows::Nil => Rows::Nil,
        Rows::Cons(row, below) => match row {
            Row::Nil => specialized(key, n, *below),
            Row::Cons(p, rest) => match *p {
                Cover::Any => Rows::Cons(
                    anys(n, *rest),
                    Box::new(specialized(key, n, *below)),
                ),
                Cover::Test(k, subs) => if k == key {
                    Rows::Cons(subs.spec_join(*rest), Box::new(specialized(key, n, *below)))
                } else {
                    specialized(key, n, *below)
                },
            },
        },
    }
}

pub(crate) fn specialize(key: &Key, n: usize, rows: &Rows) -> (r: Rows)
    ensures
        r == specialized(*key, n as nat, *rows),
    decreases rows,
{
    match rows {
        Rows::Nil => Rows::Nil,
        Rows::Cons(row, below) => {
            let rest_rows = specialize(key, n, below);
            match row {
                Row::Nil => rest_rows,
                Row::Cons(p, rest) => match &**p {
                    Cover::Any => Rows::Cons(with_anys(n, rest), Box::new(rest_rows)),
                    Cover::Test(k, subs) => if k.same(key) {
                        Rows::Cons(subs.join(rest), Box::new(rest_rows))
                    } else {
                        rest_rows
                    },
                },
            }
        },
    }
}

/// The rows that test nothing of the first value, without it.
pub open spec fn defaulted(rows: Rows) -> Rows
    decreases rows,
{
    match rows {
        Rows::Nil => Rows::Nil,
        Rows::Cons(row, below) => match row {
            Row::Nil => defaulted(*below),
            Row::Cons(p, rest) => match *p {
                Cover::Any => Rows::Cons(*rest, Box::new(defaulted(*below))),
                Cover::Test(_, _) => defaulted(*below),
            },
        },
    }
}

pub(crate) fn default_rows(rows: &Rows) -> (r: Rows)
    ensures
        r == defaulted(*rows),
    decreases rows,
{
    match rows {
        Rows::Nil => Rows::Nil,
        Rows::Cons(row, below) => {
            let rest_rows = default_rows(below);
            match row {
                Row::Nil => rest_rows,
                Row::Cons(p, rest) => match &**p {
                    Cover::Any => Rows::Cons(rest.dup(), Box::new(rest_rows)),
                    Cover::Test(_, _) => rest_rows,
                },
            }
        },
    }
}

/// The tests made of the first value, row by row.
pub open spec fn first_keys(rows: Rows) -> Keys
    decreases rows,
{
    match rows {
        Rows::Nil => Keys::Nil,
        Rows::Cons(row, below) => match row {
            Row::Nil => first_keys(*below),
            Row::Cons(p, _) => match *p {
                Cover::Any => first_keys(*below),
                Cover::Test(k, _) => Keys::Cons(k, Box::new(first_keys(*below))),
            },
        },
    }
}

pub(crate) fn keys_of(rows: &Rows) -> (r: Keys)
    ensures
        r == first_keys(*rows),
    decreases rows,
{
    match rows {
        Rows::Nil => Keys::Nil,
        Rows::Cons(row, below) => {
            let rest = keys_of(below);
            match row {
                Row::Nil => rest,
                Row::Cons(p, _) => match &**p {
                    Cover::Any => rest,
                    Cover::Test(k, _) => Keys::Cons(k.dup(), Box::new(rest)),
                },
            }
        },
    }
}

/// Whether `key` is among `keys`.
pub open spec fn tests_for(keys: Keys, key: Key) -> bool
    decreases keys,
{
    match keys {
        Keys::Nil => false,
        Keys::Cons(k, rest) => k == key || tests_for(*rest, key),
    }
}

pub(crate) fn has_key(keys: &Keys, key: &Key) -> (r: bool)
    ensures
        r == tests_for(*keys, *key),
    decreases keys,
{
    match keys {
        Keys::Nil => false,
        Keys::Cons(k, rest) => k.same(key) || has_key(rest, key),
    }
}

/// Whether the first `n` variants of an enum are all tested for.
pub open spec fn variants_tested(keys: Keys, def: EnumDefId, n: nat) -> bool
    decreases n,
{
    n == 0 || (tests_for(keys, Key::Variant(def, (n - 1) as u32)) && variants_tested(
        keys,
        def,
        (n - 1) as nat,
    ))
}

fn all_variants(keys: &Keys, def: EnumDefId, n: usize) -> (r: bool)
    ensures
        r == variants_tested(*keys, def, n as nat),
    decreases n,
{
    n == 0 || (has_key(keys, &Key::Variant(def, (n - 1) as u32)) && all_variants(keys, def, n - 1))
}

/// How many variants an enum has.
pub open spec fn variant_count(db: DbView, def: EnumDefId) -> nat {
    match db.enum_def(def) {
        Some(e) => e.variants.len(),
        None => 0,
    }
}

pub(crate) fn count_variants(db: &TypeDb, def: EnumDefId) -> (r: usize)
    ensures
        r == variant_count(db@, def),
{
    if (def.0 as usize) < db.enums.len() {
        assert(db@.enums[def.0 as int] == db.enums@[def.0 as int]@);
        db.enums[def.0 as usize].variants.len()
    } else {
        0
    }
}

/// The types of the components of a value of type `t` that passes a test, if
/// there is such a value.
pub open spec fn parts_types(db: DbView, t: Type, k: Key) -> Option<Seq<Type>> {
    match (db.resolve(t), k) {
        (Type::Enum(d, args), Key::Variant(e, i)) => if d == e && i < variant_count(db, d) {
            Some(db.payload_of(d, args, i as nat))
        } else {
            None
        },
        (Type::Tuple(l), Key::Tuple) => Some(l.seq()),
        (Type::Record(d, args), Key::Record(e)) => if d == e {
            Some(Seq::new(db.field_count(d), |i: int| db.field_type(d, args, i as nat)))
        } else {
            None
        },
        (Type::Scalar(ScalarType::Bool), Key::Bool(_)) => Some(Seq::empty()),
        (Type::Scalar(ScalarType::Int), Key::Int(_)) => Some(Seq::empty()),
        (Type::Scalar(ScalarType::Float), Key::Float(_)) => Some(Seq::empty()),
        (Type::Scalar(ScalarType::Char), Key::Char(_)) => Some(Seq::empty()),
        (Type::Scalar(ScalarType::Text), Key::Text(_)) => Some(Seq::empty()),
        (Type::Unit, Key::Unit) => Some(Seq::empty()),
        _ => None,
    }
}

fn field_types(db: &TypeDb, d: RecordDefId, args: &TypeList) -> (r: Vec<Type>)
    ensures
        r@ == Seq::new(db@.field_count(d), |i: int| db@.field_type(d, *args, i as nat)),
{
    let ghost all = Seq::new(db@.field_count(d), |i: int| db@.field_type(d, *args, i as nat));
    let n: usize = db.field_count(d);
    let mut out: Vec<Type> = Vec::new();
    let mut i: usize = 0;
    while i < n
        invariant
            i <= n,
            n == db@.field_count(d),
            all == Seq::new(db@.field_count(d), |i: int| db@.field_type(d, *args, i as nat)),
            out@ =~= all.take(i as int),
        decreases n - i,
    {
        out.push(db.field_type(d, args, i));
        i += 1;
    }
    assert(out@ =~= all);
    out
}

pub(crate) fn parts_of(db: &TypeDb, t: &Type, k: &Key) -> (r: Option<Vec<Type>>)
    ensures
        match parts_types(db@, *t, *k) {
            Some(ts) => r matches Some(x) && x@ == ts,
            None => r is None,
        },
{
    let none: Vec<Type> = Vec::new();
    assert(none@ =~= Seq::empty());
    match (&db.deep_resolve(t), k) {
        (Type::Enum(d, args), Key::Variant(e, i)) => if *d == *e && (*i as usize) < count_variants(
            db,
            *d,
        ) {
            Some(db.payload_of(*d, args, *i as usize))
        } else {
            None
        },
        (Type::Tuple(l), Key::Tuple) => Some(l.to_vec()),
        (Type::Record(d, args), Key::Record(e)) => if *d == *e {
            Some(field_types(db, *d, args))
        } else {
            None
        },
        (Type::Scalar(ScalarType::Bool), Key::Bool(_)) => Some(none),
        (Type::Scalar(ScalarType::Int), Key::Int(_)) => Some(none),
        (Type::Scalar(ScalarType::Float), Key::Float(_)) => Some(none),
        (Type::Scalar(ScalarType::Char), Key::Char(_)) => Some(none),
        (Type::Scalar(ScalarType::Text), Key::Text(_)) => Some(none),
        (Type::Unit, Key::Unit) => Some(none),
        _ => None,
    }
}

/// The type of the first value, where it is known.
pub open spec fn first_type(ts: Seq<Type>) -> Type {
    if ts.len() > 0 {
        ts[0]
    } else {
        Type::Never
    }
}

pub open spec fn rest_types(ts: Seq<Type>) -> Seq<Type> {
    if ts.len() > 0 {
        ts.skip(1)
    } else {
        ts
    }
}

pub(crate) fn type_first(ts: &Vec<Type>) -> (r: Type)
    ensures
        r == first_type(ts@),
{
    if ts.len() > 0 {
        ts[0].dup()
    } else {
        Type::Never
    }
}

/// `parts`, and then the types after the first.
pub(crate) fn replaced(parts: &Vec<Type>, ts: &Vec<Type>) -> (r: Vec<Type>)
    ensures
        r@ == parts@ + rest_types(ts@),
{
    let ghost all = parts@ + rest_types(ts@);
    let mut out: Vec<Type> = Vec::new();
    let mut i: usize = 0;
    while i < parts.len()
        invariant
            i <= parts@.len(),
            out@ =~= parts@.take(i as int),
        decreases parts@.len() - i,
    {
        out.push(parts[i].dup());
        i += 1;
    }
    let mut k: usize = 1;
    while k < ts.len()
        invariant
            1 <= k,
            ts@.len() > 0 ==> k <= ts@.len(),
            ts@.len() == 0 ==> k == 1,
            out@ =~= parts@ + rest_types(ts@).take(k - 1),
        decreases ts@.len() - k,
    {
        out.push(ts[k].dup());
        k += 1;
    }
    assert(out@ =~= all);
    out
}

pub(crate) fn types_after(ts: &Vec<Type>) -> (r: Vec<Type>)
    ensures
        r@ == rest_types(ts@),
{
    let none: Vec<Type> = Vec::new();
    let r = replaced(&none, ts);
    assert(r@ =~= rest_types(ts@));
    r
}

/// What the patterns below a test are for: the components of the value where it
/// can pass the test, else nothing known.
pub open spec fn part_columns(db: DbView, t: Type, k: Key, subs: Row) -> Seq<Type> {
    match parts_types(db, t, k) {
        Some(ts) => if ts.len() == subs.spec_len() {
            ts
        } else {
            unknown(subs)
        },
        None => unknown(subs),
    }
}

/// A type that no value has, for each pattern of a row.
pub open spec fn unknown(row: Row) -> Seq<Type>
    decreases row,
{
    match row {
        Row::Nil => Seq::empty(),
        Row::Cons(_, rest) => unknown(*rest).push(Type::Never),
    }
}

proof fn lemma_unknown_len(row: Row)
    ensures
        unknown(row).len() == row.spec_len(),
    decreases row,
{
    if let Row::Cons(_, rest) = row {
        lemma_unknown_len(*rest);
    }
}

fn unknowns(row: &Row) -> (r: Vec<Type>)
    ensures
        r@ == unknown(*row),
    decreases row,
{
    match row {
        Row::Nil => {
            let r: Vec<Type> = Vec::new();
            assert(r@ =~= Seq::empty());
            r
        },
        Row::Cons(_, rest) => {
            let mut r = unknowns(rest);
            r.push(Type::Never);
            r
        },
    }
}

fn columns(db: &TypeDb, t: &Type, k: &Key, subs: &Row) -> (r: Vec<Type>)
    ensures
        r@ == part_columns(db@, *t, *k, *subs),
        r@.len() == subs.spec_len(),
{
    let blank = unknowns(subs);
    proof {
        lemma_unknown_len(*subs);
    }
    match parts_of(db, t, k) {
        Some(ts) => if ts.len() == blank.len() {
            ts
        } else {
            blank
        },
        None => blank,
    }
}

/// Whether every value of type `t` passes one of the tests.
pub open spec fn complete(db: DbView, t: Type, keys: Keys) -> bool {
    !(keys is Nil) && match db.resolve(t) {
        Type::Tuple(_) => tests_for(keys, Key::Tuple),
        Type::Record(d, _) => tests_for(keys, Key::Record(d)),
        Type::Unit => tests_for(keys, Key::Unit),
        Type::Scalar(ScalarType::Bool) => tests_for(keys, Key::Bool(true)) && tests_for(
            keys,
            Key::Bool(false),
        ),
        Type::Enum(d, _) => variants_tested(keys, d, variant_count(db, d)),
        _ => false,
    }
}

pub(crate) fn is_complete(db: &TypeDb, t: &Type, keys: &Keys) -> (r: bool)
    ensures
        r == complete(db@, *t, *keys),
{
    if let Keys::Nil = keys {
        return false;
    }
    match &db.deep_resolve(t) {
        Type::Tuple(_) => has_key(keys, &Key::Tuple),
        Type::Record(d, _) => has_key(keys, &Key::Record(*d)),
        Type::Unit => has_key(keys, &Key::Unit),
        Type::Scalar(ScalarType::Bool) => has_key(keys, &Key::Bool(true)) && has_key(
            keys,
            &Key::Bool(false),
        ),
        Type::Enum(d, _) => all_variants(keys, *d, count_variants(db, *d)),
        _ => false,
    }
}

// ---------------------------------------------------------------------------
// How much there is left to test
// ---------------------------------------------------------------------------

pub open spec fn row_tests(row: Row) -> nat
    decreases row,
{
    match row {
        Row::Nil => 0,
        Row::Cons(p, rest) => cover_tests(*p) + row_tests(*rest),
    }
}

pub open spec fn cover_tests(p: Cover) -> nat
    decreases p,
{
    match p {
        Cover::Any => 0,
        Cover::Test(_, subs) => 1 + row_tests(subs),
    }
}

pub open spec fn tests(rows: Rows) -> nat
    decreases rows,
{
    match rows {
        Rows::Nil => 0,
        Rows::Cons(row, below) => row_tests(row) + tests(*below),
    }
}

pub proof fn lemma_join_tests(a: Row, b: Row)
    ensures
        row_tests(a.spec_join(b)) == row_tests(a) + row_tests(b),
    decreases a,
{
    if let Row::Cons(h, t) = a {
        lemma_join_tests(*t, b);
    }
}

pub proof fn lemma_anys_tests(n: nat, rest: Row)
    ensures
        row_tests(anys(n, rest)) == row_tests(rest),
    decreases n,
{
    if n > 0 {
        lemma_anys_tests((n - 1) as nat, rest);
        assert(cover_tests(Cover::Any) == 0);
    }
}

pub proof fn lemma_specialized_tests(key: Key, n: nat, rows: Rows)
    ensures
        tests(specialized(key, n, rows)) <= tests(rows),
        tests_for(first_keys(rows), key) ==> tests(specialized(key, n, rows)) < tests(rows),
    decreases rows,
{
    if let Rows::Cons(row, below) = rows {
        lemma_specialized_tests(key, n, *below);
        if let Row::Cons(p, rest) = row {
            match *p {
                Cover::Any => {
                    lemma_anys_tests(n, *rest);
                    assert(cover_tests(*p) == 0);
                },
                Cover::Test(k, subs) => {
                    lemma_join_tests(subs, *rest);
                    assert(cover_tests(*p) == 1 + row_tests(subs));
                },
            }
        }
    }
}

pub proof fn lemma_defaulted_tests(rows: Rows)
    ensures
        tests(defaulted(rows)) <= tests(rows),
    decreases rows,
{
    if let Rows::Cons(row, below) = rows {
        lemma_defaulted_tests(*below);
    }
}

pub open spec fn key_count(keys: Keys) -> nat
    decreases keys,
{
    match keys {
        Keys::Nil => 0,
        Keys::Cons(_, rest) => 1 + key_count(*rest),
    }
}

/// Whether every one of `keys` is tested for in the first column of `rows`.
pub open spec fn all_first(keys: Keys, rows: Rows) -> bool
    decreases keys,
{
    match keys {
        Keys::Nil => true,
        Keys::Cons(k, rest) => tests_for(first_keys(rows), k) && all_first(*rest, rows),
    }
}

proof fn lemma_sub_keys(keys: Keys, all: Keys, rows: Rows)
    requires
        first_keys(rows) == all,
        forall|k: Key| tests_for(keys, k) ==> tests_for(all, k),
    ensures
        all_first(keys, rows),
    decreases keys,
{
    if let Keys::Cons(k, rest) = keys {
        assert(tests_for(keys, k));
        assert forall|x: Key| tests_for(*rest, x) implies tests_for(all, x) by {
            assert(tests_for(keys, x));
        }
        lemma_sub_keys(*rest, all, rows);
    }
}

pub proof fn lemma_own_keys(rows: Rows)
    ensures
        all_first(first_keys(rows), rows),
{
    lemma_sub_keys(first_keys(rows), first_keys(rows), rows);
}

/// Whether some values of the types `ts` match `q` and none of `rows`.
pub open spec fn useful(db: DbView, ts: Seq<Type>, rows: Rows, q: Row) -> bool
    decreases tests(rows) + row_tests(q), q.spec_len(), 1nat, 0nat,
{
    match q {
        Row::Nil => rows is Nil,
        Row::Cons(p, rest) => match *p {
            Cover::Test(k, subs) => {
                proof {
                    lemma_join_tests(subs, *rest);
                    lemma_specialized_tests(k, subs.spec_len(), rows);
                    assert(cover_tests(*p) == 1 + row_tests(subs));
                }
                useful(
                    db,
                    part_columns(db, first_type(ts), k, subs) + rest_types(ts),
                    specialized(k, subs.spec_len(), rows),
                    subs.spec_join(*rest),
                )
            },
            Cover::Any => if complete(db, first_type(ts), first_keys(rows)) {
                proof {
                    lemma_own_keys(rows);
                }
                useful_under(db, ts, first_keys(rows), rows, *rest)
            } else {
                proof {
                    lemma_defaulted_tests(rows);
                }
                useful(db, rest_types(ts), defaulted(rows), *rest)
            },
        },
    }
}

/// Whether, where the first value passes one of the tests `keys`, some values
/// match anything followed by `rest` and none of `rows`.
pub open spec fn useful_under(db: DbView, ts: Seq<Type>, keys: Keys, rows: Rows, rest: Row) -> bool
    decreases
            tests(rows) + row_tests(rest),
            rest.spec_len() + 1,
            0nat,
            key_count(keys),
    when all_first(keys, rows)
{
    match keys {
        Keys::Nil => false,
        Keys::Cons(k, more) => {
            (match parts_types(db, first_type(ts), k) {
                Some(parts) => {
                    proof {
                        lemma_specialized_tests(k, parts.len(), rows);
                        lemma_anys_tests(parts.len(), rest);
                    }
                    useful(
                        db,
                        parts + rest_types(ts),
                        specialized(k, parts.len(), rows),
                        anys(parts.len(), rest),
                    )
                },
                None => false,
            }) || useful_under(db, ts, *more, rows, rest)
        },
    }
}

fn is_useful(db: &TypeDb, ts: &Vec<Type>, rows: &Rows, q: &Row) -> (r: bool)
    ensures
        r == useful(db@, ts@, *rows, *q),
    decreases tests(*rows) + row_tests(*q), q.spec_len(), 1nat, 0nat,
{
    match q {
        Row::Nil => match rows {
            Rows::Nil => true,
            _ => false,
        },
        Row::Cons(p, rest) => {
            let t = type_first(ts);
            match &**p {
                Cover::Test(k, subs) => {
                    proof {
                        lemma_join_tests(*subs, **rest);
                        lemma_specialized_tests(*k, subs.spec_len(), *rows);
                        assert(cover_tests(**p) == 1 + row_tests(*subs));
                    }
                    let parts = columns(db, &t, k, subs);
                    is_useful(
                        db,
                        &replaced(&parts, ts),
                        &specialize(k, parts.len(), rows),
                        &subs.join(rest),
                    )
                },
                Cover::Any => {
                    let keys = keys_of(rows);
                    if is_complete(db, &t, &keys) {
                        proof {
                            lemma_own_keys(*rows);
                        }
                        is_useful_under(db, ts, &keys, rows, rest)
                    } else {
                        proof {
                            lemma_defaulted_tests(*rows);
                        }
                        is_useful(db, &types_after(ts), &default_rows(rows), rest)
                    }
                },
            }
        },
    }
}

fn is_useful_under(db: &TypeDb, ts: &Vec<Type>, keys: &Keys, rows: &Rows, rest: &Row) -> (r: bool)
    requires
        all_first(*keys, *rows),
    ensures
        r == useful_under(db@, ts@, *keys, *rows, *rest),
    decreases tests(*rows) + row_tests(*rest), rest.spec_len() + 1, 0nat, key_count(*keys),
{
    match keys {
        Keys::Nil => false,
        Keys::Cons(k, more) => {
            if let Some(parts) = parts_of(db, &type_first(ts), k) {
                let n: usize = parts.len();
                proof {
                    lemma_specialized_tests(*k, n as nat, *rows);
                    lemma_anys_tests(n as nat, *rest);
                }
                if is_useful(
                    db,
                    &replaced(&parts, ts),
                    &specialize(k, n, rows),
                    &with_anys(n, rest),
                ) {
                    return true;
                }
            }
            is_useful_under(db, ts, more, rows, rest)
        },
    }
}

// ---------------------------------------------------------------------------
// Checking a program's matches
// ---------------------------------------------------------------------------

/// What a literal is tested for.
pub open spec fn key_of(v: LitView) -> Key {
    match v {
        LitView::Int(n) => Key::Int(n),
        LitView::Float(b) => Key::Float(b),
        LitView::Text(t) => Key::Text(Chars::of(t)),
        LitView::Bool(b) => Key::Bool(b),
        LitView::Char(c) => Key::Char(c),
        LitView::Unit => Key::Unit,
    }
}

/// A pattern, as coverage sees it.
pub open spec fn cover_of(p: PatternView) -> Cover
    decreases p,
{
    match p {
        PatternView::Wildcard => Cover::Any,
        PatternView::Bind(_, _, _, _) => Cover::Any,
        PatternView::Lit(v, _) => Cover::Test(key_of(v), Row::Nil),
        PatternView::EnumVariant(def, i, subs, _) => Cover::Test(
            Key::Variant(def, i),
            row_of(subs, Row::Nil),
        ),
        PatternView::Tuple(subs, _) => Cover::Test(Key::Tuple, row_of(subs, Row::Nil)),
        PatternView::Record(def, subs, _) => Cover::Test(
            Key::Record(def),
            row_of(subs, Row::Nil),
        ),
    }
}

/// The patterns `s` side by side, and then `rest`.
pub open spec fn row_of(s: Seq<PatternView>, rest: Row) -> Row
    decreases s,
{
    if s.len() == 0 {
        rest
    } else {
        row_of(s.drop_last(), Row::Cons(Box::new(cover_of(s.last())), Box::new(rest)))
    }
}

fn literal_key(v: &Lit) -> (r: Key)
    ensures
        r == key_of(v@),
{
    match v {
        Lit::Int(n) => Key::Int(*n),
        Lit::Float(b) => Key::Float(*b),
        Lit::Text(t) => Key::Text(chars_of(t)),
        Lit::Bool(b) => Key::Bool(*b),
        Lit::Char(c) => Key::Char(*c),
        Lit::Unit => Key::Unit,
    }
}

fn cover(p: &TypedPattern) -> (r: Cover)
    ensures
        r == cover_of(pattern_view(*p)),
    decreases p,
{
    match p {
        TypedPattern::Wildcard => Cover::Any,
        TypedPattern::Bind { .. } => Cover::Any,
        TypedPattern::Lit { value, .. } => Cover::Test(literal_key(value), Row::Nil),
        TypedPattern::EnumVariant { enum_def_id, variant_idx, subpatterns, .. } => Cover::Test(
            Key::Variant(*enum_def_id, *variant_idx),
            cover_row(subpatterns),
        ),
        TypedPattern::Tuple { subpatterns, .. } => Cover::Test(Key::Tuple, cover_row(subpatterns)),
        TypedPattern::Record { record_def_id, subpatterns, .. } => Cover::Test(
            Key::Record(*record_def_id),
            cover_row(subpatterns),
        ),
    }
}

fn cover_row(subs: &Vec<TypedPattern>) -> (r: Row)
    ensures
        r == row_of(pattern_views(subs@), Row::Nil),
    decreases subs,
{
    let ghost views = pattern_views(subs@);
    proof {
        lemma_pattern_views_index(subs@, 0);
    }
    let mut row = Row::Nil;
    let mut i: usize = subs.len();
    assert(views.take(i as int) =~= views);
    while i > 0
        invariant
            i <= subs@.len(),
            views == pattern_views(subs@),
            views.len() == subs@.len(),
            row_of(views.take(i as int), row) == row_of(views, Row::Nil),
        decreases i,
    {
        i -= 1;
        proof {
            lemma_pattern_views_index(subs@, 0);
            assert(views.take(i + 1).drop_last() =~= views.take(i as int));
            assert(views.take(i + 1).last() == pattern_view(subs@[i as int]));
        }
        let first = cover(&subs[i]);
        row = Row::Cons(Box::new(first), Box::new(row));
    }
    assert(views.take(0) =~= Seq::empty());
    row
}

/// The row of one pattern.
pub open spec fn single(c: Cover) -> Row {
    Row::Cons(Box::new(c), Box::new(Row::Nil))
}

fn single_row(c: Cover) -> (r: Row)
    ensures
        r == single(c),
{
    Row::Cons(Box::new(c), Box::new(Row::Nil))
}

pub open spec fn unreachable_arm(at: FileSpan) -> DiagView {
    error_at(
        at,
        DiagCode::UnreachableArm,
        "this arm can never run: the arms before it cover everything it matches"@,
    )
}

pub open spec fn uncovered(db: DbView, ty: Type, rows: Rows, at: FileSpan) -> DiagView {
    error_at(
        at,
        DiagCode::NonExhaustiveMatch,
        gap_message(db, witness(db, seq![ty], rows)),
    )
}

/// The arms so far, the last one first, and the reports about them.
pub open spec fn arm_reports(env: PatternEnv, arms: Seq<MatchArm>, ty: Type) -> (
    Rows,
    Seq<DiagView>,
)
    decreases arms.len(),
{
    if arms.len() == 0 {
        (Rows::Nil, Seq::empty())
    } else {
        let (rows, before) = arm_reports(env, arms.drop_last(), ty);
        match arms.last().pattern {
            Some(pat) => {
                let (p, built) = build_spec(env, pat, ty, before);
                let row = single(cover_of(p));
                (
                    Rows::Cons(row, Box::new(rows)),
                    if useful(env.db, seq![ty], rows, row) {
                        built
                    } else {
                        built.push(unreachable_arm(FileSpan { file: env.file, span: pat.range }))
                    },
                )
            },
            None => (Rows::Cons(single(Cover::Any), Box::new(rows)), before),
        }
    }
}

/// What there is to report about a `match` over values of type `ty`.
pub open spec fn match_reports(env: PatternEnv, arms: Seq<MatchArm>, ty: Type, at: FileSpan) -> Seq<
    DiagView,
> {
    let (rows, reports) = arm_reports(env, arms, ty);
    if useful(env.db, seq![ty], rows, single(Cover::Any)) {
        reports.push(uncovered(env.db, ty, rows, at))
    } else {
        reports
    }
}

/// The reports so far, after one expression.
pub open spec fn check_one(
    env: PatternEnv,
    expr_types: Map<NodeKey, Type>,
    e: Expr,
    out: Seq<DiagView>,
) -> Seq<DiagView> {
    match e.kind {
        ExprKind::Match { scrutinee, arms } => match scrutinee {
            Some(s) => match at(expr_types, s.spec_key()) {
                Some(t) => if env.db.resolve(t) is Var {
                    out
                } else {
                    merged(
                        out,
                        match_reports(
                            env,
                            arms@,
                            env.db.resolve(t),
                            FileSpan { file: env.file, span: e.range },
                        ),
                    )
                },
                None => out,
            },
            None => out,
        },
        _ => out,
    }
}

pub open spec fn check_all(
    env: PatternEnv,
    expr_types: Map<NodeKey, Type>,
    vs: Seq<Visit>,
    out: Seq<DiagView>,
) -> Seq<DiagView>
    decreases vs.len(),
{
    if vs.len() == 0 {
        out
    } else {
        let before = check_all(env, expr_types, vs.drop_last(), out);
        match vs.last() {
            Visit::Expr(e) => check_one(env, expr_types, e, before),
            Visit::Target(_) => before,
        }
    }
}

fn check_arms(builder: &PatternBuilder<'_>, arms: &Vec<MatchArm>, ty: &Type, here: FileSpan) -> (r:
    Vec<Diagnostic>)
    ensures
        diag_views(r@) == match_reports(builder.env(), arms@, *ty, here),
{
    let types = vec![ty.dup()];
    assert(types@ =~= seq![*ty]);
    let mut rows = Rows::Nil;
    let mut reports: Vec<Diagnostic> = Vec::new();
    let mut i: usize = 0;
    assert(arms@.take(0) =~= Seq::empty());
    assert(diag_views(reports@) =~= Seq::empty());
    while i < arms.len()
        invariant
            i <= arms@.len(),
            types@ == seq![*ty],
            (rows, diag_views(reports@)) == arm_reports(
                builder.env(),
                arms@.take(i as int),
                *ty,
            ),
        decreases arms@.len() - i,
    {
        assert(arms@.take(i + 1).drop_last() =~= arms@.take(i as int));
        assert(arms@.take(i + 1).last() == arms@[i as int]);
        let row: Row = match &arms[i].pattern {
            Some(pat) => {
                let p = builder.build(pat, ty, &mut reports);
                let row = single_row(cover(&p));
                if !is_useful(builder.db, &types, &rows, &row) {
                    push_diag(
                        &mut reports,
                        Diagnostic::error(
                            FileSpan::new(builder.file, pat.range),
                            DiagCode::UnreachableArm,
                            text(
                                "this arm can never run: the arms before it cover everything it matches",
                            ),
                        ),
                    );
                }
                row
            },
            None => single_row(Cover::Any),
        };
        rows = Rows::Cons(row, Box::new(rows));
        i += 1;
    }
    assert(arms@.take(i as int) =~= arms@);
    if is_useful(builder.db, &types, &rows, &single_row(Cover::Any)) {
        let gap = find_witness(builder.db, &types, &rows);
        let message = describe_gap(builder.db, &gap);
        push_diag(
            &mut reports,
            Diagnostic::error(here, DiagCode::NonExhaustiveMatch, message),
        );
    }
    reports
}

/// Checks every `match` of the file: an arm that adds nothing to the arms before
/// it is reported, and so is a `match` that leaves a value uncovered.
pub fn check_matches(
    file: FileId,
    root: &SourceFile,
    db: &TypeDb,
    decls: &SpanMap<SymbolId>,
    expr_types: &NodeMap<Type>,
    out: &mut Vec<Diagnostic>,
)
    ensures
        diag_views(final(out)@) == check_all(
            PatternEnv { file, db: db@, decls: decls@ },
            expr_types@,
            file_descendants(root.items@),
            diag_views(old(out)@),
        ),
{
    let builder = PatternBuilder { file, db, decls };
    let nodes = descendants(root);
    let ghost all = file_descendants(root.items@);
    let mut i: usize = 0;
    assert(all.take(0) =~= Seq::empty());
    while i < nodes.len()
        invariant
            i <= nodes@.len(),
            visits(nodes@) == all,
            builder == (PatternBuilder { file, db, decls }),
            diag_views(out@) == check_all(
                builder.env(),
                expr_types@,
                all.take(i as int),
                diag_views(old(out)@),
            ),
        decreases nodes@.len() - i,
    {
        let seen = nodes[i];
        assert(all[i as int] == seen@);
        assert(all.take(i + 1).drop_last() =~= all.take(i as int));
        i += 1;
        let Seen::Expr(node) = seen else {
            continue;
        };
        let ExprKind::Match { scrutinee, arms } = &node.kind else {
            continue;
        };
        let Some(s) = scrutinee else {
            continue;
        };
        let Some(t) = expr_types.get(s.key()) else {
            continue;
        };
        let ty = db.deep_resolve(t);
        if let Type::Var(_) = &ty {
            continue;
        }
        let reports = check_arms(&builder, arms, &ty, FileSpan::new(file, node.range));
        merge_pattern_diagnostics(reports, out);
    }
    assert(all.take(i as int) =~= all);
}

/// After an arm that matches anything, nothing is left: the `match` is covered
/// and no later arm adds to it.
pub proof fn law_catch_all_covers(db: DbView, ts: Seq<Type>, rows: Rows, c: Cover)
    requires
        has_catch_all(rows),
        one_column(rows),
    ensures
        !useful(db, ts, rows, single(c)),
{
    assert(single(c).spec_len() == 1) by {
        assert(Row::Nil.spec_len() == 0);
    }
    lemma_catch_all(db, ts, rows, single(c));
}

/// Whether some row is wildcards only.
pub open spec fn has_catch_all(rows: Rows) -> bool
    decreases rows,
{
    match rows {
        Rows::Nil => false,
        Rows::Cons(row, below) => all_any(row) || has_catch_all(*below),
    }
}

pub open spec fn all_any(row: Row) -> bool
    decreases row,
{
    match row {
        Row::Nil => true,
        Row::Cons(p, rest) => *p is Any && all_any(*rest),
    }
}

/// Whether the rows hold one pattern each.
pub open spec fn one_column(rows: Rows) -> bool
    decreases rows,
{
    match rows {
        Rows::Nil => true,
        Rows::Cons(row, below) => row.spec_len() == 1 && one_column(*below),
    }
}

/// Whether a row of wildcards as long as `n` is among the rows.
pub open spec fn catches(rows: Rows, n: nat) -> bool
    decreases rows,
{
    match rows {
        Rows::Nil => false,
        Rows::Cons(row, below) => (all_any(row) && row.spec_len() == n) || catches(*below, n),
    }
}

pub proof fn lemma_anys_all_any(n: nat, rest: Row)
    ensures
        all_any(rest) ==> all_any(anys(n, rest)),
        anys(n, rest).spec_len() == n + rest.spec_len(),
    decreases n,
{
    if n > 0 {
        lemma_anys_all_any((n - 1) as nat, rest);
    }
}

proof fn lemma_catches_specialized(rows: Rows, len: nat, key: Key, n: nat)
    requires
        len > 0,
        catches(rows, len),
    ensures
        catches(specialized(key, n, rows), (n + len - 1) as nat),
    decreases rows,
{
    if let Rows::Cons(row, below) = rows {
        if all_any(row) && row.spec_len() == len {
            if let Row::Cons(p, rest) = row {
                lemma_anys_all_any(n, *rest);
            }
        } else {
            lemma_catches_specialized(*below, len, key, n);
        }
    }
}

proof fn lemma_catches_defaulted(rows: Rows, len: nat)
    requires
        len > 0,
        catches(rows, len),
    ensures
        catches(defaulted(rows), (len - 1) as nat),
    decreases rows,
{
    if let Rows::Cons(row, below) = rows {
        if !(all_any(row) && row.spec_len() == len) {
            lemma_catches_defaulted(*below, len);
        }
    }
}

proof fn lemma_join_len(a: Row, b: Row)
    ensures
        a.spec_join(b).spec_len() == a.spec_len() + b.spec_len(),
    decreases a,
{
    if let Row::Cons(_, t) = a {
        lemma_join_len(*t, b);
    }
}

proof fn lemma_catches_useful(db: DbView, ts: Seq<Type>, rows: Rows, q: Row)
    requires
        catches(rows, q.spec_len()),
    ensures
        !useful(db, ts, rows, q),
    decreases tests(rows) + row_tests(q), q.spec_len(), 1nat, 0nat,
{
    if let Row::Cons(p, rest) = q {
        match *p {
            Cover::Test(k, subs) => {
                lemma_join_tests(subs, *rest);
                lemma_specialized_tests(k, subs.spec_len(), rows);
                assert(cover_tests(*p) == 1 + row_tests(subs));
                lemma_join_len(subs, *rest);
                lemma_catches_specialized(rows, q.spec_len(), k, subs.spec_len());
                lemma_catches_useful(
                    db,
                    part_columns(db, first_type(ts), k, subs) + rest_types(ts),
                    specialized(k, subs.spec_len(), rows),
                    subs.spec_join(*rest),
                );
            },
            Cover::Any => {
                if complete(db, first_type(ts), first_keys(rows)) {
                    lemma_own_keys(rows);
                    lemma_catches_under(db, ts, first_keys(rows), rows, *rest);
                } else {
                    lemma_defaulted_tests(rows);
                    lemma_catches_defaulted(rows, q.spec_len());
                    lemma_catches_useful(db, rest_types(ts), defaulted(rows), *rest);
                }
            },
        }
    }
}

proof fn lemma_catches_under(db: DbView, ts: Seq<Type>, keys: Keys, rows: Rows, rest: Row)
    requires
        all_first(keys, rows),
        catches(rows, rest.spec_len() + 1),
    ensures
        !useful_under(db, ts, keys, rows, rest),
    decreases tests(rows) + row_tests(rest), rest.spec_len() + 1, 0nat, key_count(keys),
{
    if let Keys::Cons(k, more) = keys {
        if let Some(parts) = parts_types(db, first_type(ts), k) {
            let n = parts.len();
            lemma_specialized_tests(k, n, rows);
            lemma_anys_tests(n, rest);
            lemma_anys_all_any(n, rest);
            lemma_catches_specialized(rows, rest.spec_len() + 1, k, n);
            lemma_catches_useful(
                db,
                parts + rest_types(ts),
                specialized(k, n, rows),
                anys(n, rest),
            );
        }
        lemma_catches_under(db, ts, *more, rows, rest);
    }
}

proof fn lemma_catch_all(db: DbView, ts: Seq<Type>, rows: Rows, q: Row)
    requires
        has_catch_all(rows),
        one_column(rows),
        q.spec_len() == 1,
    ensures
        !useful(db, ts, rows, q),
{
    lemma_catches_one(rows);
    lemma_catches_useful(db, ts, rows, q);
}

proof fn lemma_catches_one(rows: Rows)
    requires
        has_catch_all(rows),
        one_column(rows),
    ensures
        catches(rows, 1),
    decreases rows,
{
    if let Rows::Cons(row, below) = rows {
        if !all_any(row) {
            lemma_catches_one(*below);
        }
    }
}

// ---------------------------------------------------------------------------
// Values
// ---------------------------------------------------------------------------

/// A value: what it passes the test for, and its components.
pub ghost struct Val {
    pub key: Key,
    pub parts: Seq<Val>,
}

/// Whether a value is one of type `t`.
pub open spec fn has_type(db: DbView, t: Type, v: Val) -> bool
    decreases v, 0nat,
{
    match parts_types(db, t, v.key) {
        Some(ts) => have_types(db, ts, v.parts),
        None => false,
    }
}

/// Whether values are of the types in their places.
pub open spec fn have_types(db: DbView, ts: Seq<Type>, vs: Seq<Val>) -> bool
    decreases vs, 0nat,
{
    if vs.len() == 0 {
        ts.len() == 0
    } else {
        ts.len() == vs.len() && have_types(db, ts.drop_last(), vs.drop_last()) && has_type(
            db,
            ts.last(),
            vs.last(),
        )
    }
}

/// Whether a pattern, wherever a value of type `t` can pass its tests, has one
/// part for each component.
pub open spec fn cover_fits(db: DbView, t: Type, c: Cover) -> bool
    decreases c,
{
    match c {
        Cover::Any => true,
        Cover::Test(k, subs) => match parts_types(db, t, k) {
            Some(ts) => row_fits(db, ts, subs),
            None => true,
        },
    }
}

pub open spec fn row_fits(db: DbView, ts: Seq<Type>, row: Row) -> bool
    decreases row,
{
    match row {
        Row::Nil => ts.len() == 0,
        Row::Cons(p, rest) => ts.len() > 0 && cover_fits(db, ts[0], *p) && row_fits(
            db,
            ts.skip(1),
            *rest,
        ),
    }
}

pub open spec fn rows_fit(db: DbView, ts: Seq<Type>, rows: Rows) -> bool
    decreases rows,
{
    match rows {
        Rows::Nil => true,
        Rows::Cons(row, below) => row_fits(db, ts, row) && rows_fit(db, ts, *below),
    }
}

/// Whether a value matches a pattern.
pub open spec fn cover_matches(c: Cover, v: Val) -> bool
    decreases c,
{
    match c {
        Cover::Any => true,
        Cover::Test(k, subs) => k == v.key && row_matches(subs, v.parts),
    }
}

/// Whether values match the patterns in their places.
pub open spec fn row_matches(row: Row, vs: Seq<Val>) -> bool
    decreases row,
{
    match row {
        Row::Nil => vs.len() == 0,
        Row::Cons(p, rest) => vs.len() > 0 && cover_matches(*p, vs[0]) && row_matches(
            *rest,
            vs.skip(1),
        ),
    }
}

/// Whether values match one of the rows.
pub open spec fn any_matches(rows: Rows, vs: Seq<Val>) -> bool
    decreases rows,
{
    match rows {
        Rows::Nil => false,
        Rows::Cons(row, below) => row_matches(row, vs) || any_matches(*below, vs),
    }
}

proof fn lemma_types_len(db: DbView, ts: Seq<Type>, vs: Seq<Val>)
    requires
        have_types(db, ts, vs),
    ensures
        ts.len() == vs.len(),
{
}

proof fn lemma_types_front(db: DbView, ts: Seq<Type>, vs: Seq<Val>)
    requires
        have_types(db, ts, vs),
        vs.len() > 0,
    ensures
        has_type(db, ts[0], vs[0]),
        have_types(db, ts.skip(1), vs.skip(1)),
    decreases vs.len(),
{
    if vs.len() == 1 {
        assert(vs.skip(1) =~= Seq::empty());
        assert(ts.skip(1) =~= Seq::empty());
    } else {
        lemma_types_front(db, ts.drop_last(), vs.drop_last());
        assert(vs.skip(1).drop_last() =~= vs.drop_last().skip(1));
        assert(ts.skip(1).drop_last() =~= ts.drop_last().skip(1));
    }
}

proof fn lemma_types_append(db: DbView, a: Seq<Type>, x: Seq<Val>, b: Seq<Type>, y: Seq<Val>)
    requires
        have_types(db, a, x),
        have_types(db, b, y),
    ensures
        have_types(db, a + b, x + y),
    decreases y.len(),
{
    if y.len() == 0 {
        assert(a + b =~= a);
        assert(x + y =~= x);
    } else {
        lemma_types_append(db, a, x, b.drop_last(), y.drop_last());
        assert((a + b).drop_last() =~= a + b.drop_last());
        assert((x + y).drop_last() =~= x + y.drop_last());
    }
}

proof fn lemma_join_fits(db: DbView, a: Seq<Type>, r: Row, b: Seq<Type>, s: Row)
    requires
        row_fits(db, a, r),
        row_fits(db, b, s),
    ensures
        row_fits(db, a + b, r.spec_join(s)),
    decreases r,
{
    match r {
        Row::Nil => {
            assert(a + b =~= b);
        },
        Row::Cons(p, rest) => {
            lemma_join_fits(db, a.skip(1), *rest, b, s);
            assert((a + b).skip(1) =~= a.skip(1) + b);
        },
    }
}

proof fn lemma_anys_fit(db: DbView, a: Seq<Type>, b: Seq<Type>, s: Row)
    requires
        row_fits(db, b, s),
    ensures
        row_fits(db, a + b, anys(a.len(), s)),
    decreases a.len(),
{
    if a.len() == 0 {
        assert(a + b =~= b);
    } else {
        lemma_anys_fit(db, a.skip(1), b, s);
        assert((a + b).skip(1) =~= a.skip(1) + b);
        assert(cover_fits(db, (a + b)[0], Cover::Any));
    }
}

proof fn lemma_row_len(db: DbView, ts: Seq<Type>, r: Row)
    requires
        row_fits(db, ts, r),
    ensures
        r.spec_len() == ts.len(),
    decreases r,
{
    if let Row::Cons(_, rest) = r {
        lemma_row_len(db, ts.skip(1), *rest);
    }
}

proof fn lemma_specialized_fit(db: DbView, ts: Seq<Type>, k: Key, parts: Seq<Type>, rows: Rows)
    requires
        ts.len() > 0,
        rows_fit(db, ts, rows),
        parts_types(db, ts[0], k) == Some(parts),
    ensures
        rows_fit(db, parts + ts.skip(1), specialized(k, parts.len(), rows)),
    decreases rows,
{
    if let Rows::Cons(row, below) = rows {
        lemma_specialized_fit(db, ts, k, parts, *below);
        if let Row::Cons(p, rest) = row {
            match *p {
                Cover::Any => lemma_anys_fit(db, parts, ts.skip(1), *rest),
                Cover::Test(key, subs) => if key == k {
                    assert(cover_fits(db, ts[0], *p));
                    lemma_join_fits(db, parts, subs, ts.skip(1), *rest);
                },
            }
        }
    }
}

proof fn lemma_defaulted_fit(db: DbView, ts: Seq<Type>, rows: Rows)
    requires
        ts.len() > 0,
        rows_fit(db, ts, rows),
    ensures
        rows_fit(db, ts.skip(1), defaulted(rows)),
    decreases rows,
{
    if let Rows::Cons(row, below) = rows {
        lemma_defaulted_fit(db, ts, *below);
    }
}

proof fn lemma_join_matches(r: Row, x: Seq<Val>, s: Row, y: Seq<Val>)
    requires
        r.spec_len() == x.len(),
    ensures
        row_matches(r.spec_join(s), x + y) == (row_matches(r, x) && row_matches(s, y)),
    decreases r,
{
    match r {
        Row::Nil => {
            assert(x + y =~= y);
        },
        Row::Cons(p, rest) => {
            lemma_join_matches(*rest, x.skip(1), s, y);
            assert((x + y).skip(1) =~= x.skip(1) + y);
        },
    }
}

proof fn lemma_anys_match(x: Seq<Val>, s: Row, y: Seq<Val>)
    ensures
        row_matches(anys(x.len(), s), x + y) == row_matches(s, y),
    decreases x.len(),
{
    if x.len() == 0 {
        assert(x + y =~= y);
    } else {
        lemma_anys_match(x.skip(1), s, y);
        assert((x + y).skip(1) =~= x.skip(1) + y);
        assert(cover_matches(Cover::Any, (x + y)[0]));
    }
}

/// What matches a specialized row matches the row it came from.
proof fn lemma_specialized_matches(
    db: DbView,
    ts: Seq<Type>,
    parts: Seq<Type>,
    rows: Rows,
    vs: Seq<Val>,
)
    requires
        ts.len() > 0,
        vs.len() > 0,
        rows_fit(db, ts, rows),
        parts_types(db, ts[0], vs[0].key) == Some(parts),
        parts.len() == vs[0].parts.len(),
        any_matches(specialized(vs[0].key, parts.len(), rows), vs[0].parts + vs.skip(1)),
    ensures
        any_matches(rows, vs),
    decreases rows,
{
    if let Rows::Cons(row, below) = rows {
        let k = vs[0].key;
        let n = parts.len();
        let x = vs[0].parts;
        let y = vs.skip(1);
        let lower = specialized(k, n, *below);
        if any_matches(lower, x + y) {
            lemma_specialized_matches(db, ts, parts, *below, vs);
        } else if let Row::Cons(p, rest) = row {
            match *p {
                Cover::Any => {
                    lemma_anys_match(x, *rest, y);
                    assert(cover_matches(*p, vs[0]));
                },
                Cover::Test(key, subs) => if key == k {
                    assert(cover_fits(db, ts[0], *p));
                    lemma_row_len(db, parts, subs);
                    lemma_join_matches(subs, x, *rest, y);
                    assert(cover_matches(*p, vs[0]));
                },
            }
        }
    }
}

proof fn lemma_defaulted_matches(rows: Rows, vs: Seq<Val>)
    requires
        vs.len() > 0,
        any_matches(defaulted(rows), vs.skip(1)),
    ensures
        any_matches(rows, vs),
    decreases rows,
{
    if let Rows::Cons(row, below) = rows {
        if any_matches(defaulted(*below), vs.skip(1)) {
            lemma_defaulted_matches(*below, vs);
        } else if let Row::Cons(p, rest) = row {
            assert(cover_matches(*p, vs[0]));
        }
    }
}

proof fn lemma_variant_tested(keys: Keys, def: EnumDefId, n: nat, i: u32)
    requires
        variants_tested(keys, def, n),
        i < n,
        n <= u32::MAX + 1,
    ensures
        tests_for(keys, Key::Variant(def, i)),
    decreases n,
{
    if i != n - 1 {
        lemma_variant_tested(keys, def, (n - 1) as nat, i);
    }
}

/// Where the tests are complete, a value of the type passes one of them.
proof fn lemma_complete_tests(db: DbView, t: Type, keys: Keys, v: Val)
    requires
        variants_numbered(db),
        complete(db, t, keys),
        has_type(db, t, v),
    ensures
        tests_for(keys, v.key),
{
    match (db.resolve(t), v.key) {
        (Type::Enum(def, _), Key::Variant(e, i)) => {
            assert(variant_count(db, def) <= u32::MAX);
            lemma_variant_tested(keys, def, variant_count(db, def), i);
        },
        (Type::Scalar(ScalarType::Bool), Key::Bool(b)) => {
            assert(tests_for(keys, Key::Bool(b)));
        },
        _ => {},
    }
}

/// What is not useful is matched already.
proof fn lemma_not_useful(db: DbView, ts: Seq<Type>, rows: Rows, q: Row, vs: Seq<Val>)
    requires
        variants_numbered(db),
        rows_fit(db, ts, rows),
        row_fits(db, ts, q),
        have_types(db, ts, vs),
        row_matches(q, vs),
        !useful(db, ts, rows, q),
    ensures
        any_matches(rows, vs),
    decreases tests(rows) + row_tests(q), q.spec_len(), 1nat, 0nat,
{
    match q {
        Row::Nil => {
            if let Rows::Cons(row, below) = rows {
                assert(row_matches(row, vs)) by {
                    lemma_row_len(db, ts, row);
                    assert(row is Nil);
                }
            }
        },
        Row::Cons(p, rest) => {
            lemma_types_front(db, ts, vs);
            let v = vs[0];
            let parts = parts_types(db, ts[0], v.key)->0;
            lemma_types_len(db, parts, v.parts);
            lemma_types_append(db, parts, v.parts, ts.skip(1), vs.skip(1));
            match *p {
                Cover::Test(k, subs) => {
                    lemma_join_tests(subs, *rest);
                    lemma_specialized_tests(k, subs.spec_len(), rows);
                    assert(cover_tests(*p) == 1 + row_tests(subs));
                    assert(cover_matches(*p, v));
                    assert(cover_fits(db, ts[0], *p));
                    lemma_row_len(db, parts, subs);
                    lemma_join_fits(db, parts, subs, ts.skip(1), *rest);
                    lemma_specialized_fit(db, ts, k, parts, rows);
                    lemma_join_matches(subs, v.parts, *rest, vs.skip(1));
                    lemma_not_useful(
                        db,
                        parts + ts.skip(1),
                        specialized(k, subs.spec_len(), rows),
                        subs.spec_join(*rest),
                        v.parts + vs.skip(1),
                    );
                    lemma_specialized_matches(db, ts, parts, rows, vs);
                },
                Cover::Any => {
                    if complete(db, ts[0], first_keys(rows)) {
                        lemma_own_keys(rows);
                        lemma_complete_tests(db, ts[0], first_keys(rows), v);
                        lemma_not_useful_under(db, ts, first_keys(rows), rows, *rest, vs);
                    } else {
                        lemma_defaulted_tests(rows);
                        lemma_defaulted_fit(db, ts, rows);
                        lemma_not_useful(db, ts.skip(1), defaulted(rows), *rest, vs.skip(1));
                        lemma_defaulted_matches(rows, vs);
                    }
                },
            }
        },
    }
}

proof fn lemma_not_useful_under(
    db: DbView,
    ts: Seq<Type>,
    keys: Keys,
    rows: Rows,
    rest: Row,
    vs: Seq<Val>,
)
    requires
        variants_numbered(db),
        all_first(keys, rows),
        ts.len() > 0,
        rows_fit(db, ts, rows),
        row_fits(db, ts.skip(1), rest),
        have_types(db, ts, vs),
        row_matches(rest, vs.skip(1)),
        tests_for(keys, vs[0].key),
        !useful_under(db, ts, keys, rows, rest),
    ensures
        any_matches(rows, vs),
    decreases tests(rows) + row_tests(rest), rest.spec_len() + 1, 0nat, key_count(keys),
{
    if let Keys::Cons(k, more) = keys {
        let v = vs[0];
        if k == v.key {
            lemma_types_front(db, ts, vs);
            let parts = parts_types(db, ts[0], k)->0;
            let n = parts.len();
            lemma_types_len(db, parts, v.parts);
            lemma_types_append(db, parts, v.parts, ts.skip(1), vs.skip(1));
            lemma_specialized_tests(k, n, rows);
            lemma_anys_tests(n, rest);
            lemma_anys_fit(db, parts, ts.skip(1), rest);
            lemma_specialized_fit(db, ts, k, parts, rows);
            lemma_anys_match(v.parts, rest, vs.skip(1));
            lemma_not_useful(
                db,
                parts + ts.skip(1),
                specialized(k, n, rows),
                anys(n, rest),
                v.parts + vs.skip(1),
            );
            lemma_specialized_matches(db, ts, parts, rows, vs);
        } else {
            lemma_not_useful_under(db, ts, *more, rows, rest, vs);
        }
    }
}

/// An arm reported to add nothing adds nothing: every value it matches, an
/// earlier arm matches.
pub proof fn law_unreachable_arms_add_nothing(db: DbView, t: Type, rows: Rows, c: Cover, v: Val)
    requires
        variants_numbered(db),
        rows_fit(db, seq![t], rows),
        cover_fits(db, t, c),
        has_type(db, t, v),
        !useful(db, seq![t], rows, single(c)),
        cover_matches(c, v),
    ensures
        any_matches(rows, seq![v]),
{
    let ts = seq![t];
    let vs = seq![v];
    assert(ts.skip(1) =~= Seq::empty());
    assert(vs.skip(1) =~= Seq::empty());
    assert(ts.drop_last() =~= Seq::empty());
    assert(vs.drop_last() =~= Seq::empty());
    assert(have_types(db, Seq::empty(), Seq::empty()));
    assert(row_fits(db, Seq::empty(), Row::Nil));
    assert(row_matches(Row::Nil, Seq::empty()));
    assert(row_fits(db, ts, single(c)));
    assert(row_matches(single(c), vs));
    lemma_not_useful(db, ts, rows, single(c), vs);
}

/// A match that is reported to leave nothing out leaves nothing out: every value
/// of the matched type has an arm.
pub proof fn law_accepted_matches_cover_every_value(db: DbView, t: Type, rows: Rows, v: Val)
    requires
        variants_numbered(db),
        rows_fit(db, seq![t], rows),
        has_type(db, t, v),
        !useful(db, seq![t], rows, single(Cover::Any)),
    ensures
        any_matches(rows, seq![v]),
{
    assert(cover_fits(db, t, Cover::Any));
    assert(cover_matches(Cover::Any, v));
    law_unreachable_arms_add_nothing(db, t, rows, Cover::Any, v);
}

} // verus!
