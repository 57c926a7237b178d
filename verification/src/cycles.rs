//! Types that are declared by way of themselves.
use vstd::prelude::*;

use crate::ast::{Ident, TopLevel, VariantDecl};
use crate::infer::Inferer;
use crate::infer_file::{field_views, variant_views};
use crate::infer_spec::{
    fresh, report, set_fields, set_scheme, set_variants, type_named, variant_type, Inf,
};
use crate::source::{text3, text5, DiagCode};
use crate::symbol::SymbolId;
use crate::tables::at;
use crate::typedb::{
    monotype, DbView, EnumDef, FieldDef, FieldView, RecordDef, Scheme, TypeDb, VariantDef,
    VariantView,
};
use crate::types::{EnumDefId, Type, TypeList};

verus! {

/// How often paths are doubled: more often than the number of types can be.
pub const DOUBLINGS: u32 = 33;

/// How many types are declared. The records come first, then the enums.
pub open spec fn node_count(db: DbView) -> nat {
    db.records.len() + db.enums.len()
}

/// Whether a type mentions the declared type `n`.
pub open spec fn mentions(db: DbView, t: Type, n: nat) -> bool
    decreases t,
{
    match t {
        Type::Record(d, a) => n == d.0 || mentions_list(db, a, n),
        Type::Enum(d, a) => n == db.records.len() + d.0 || mentions_list(db, a, n),
        Type::Collection(_, a) => mentions_list(db, a, n),
        Type::Tuple(a) => mentions_list(db, a, n),
        Type::Func(p, r) => mentions_list(db, p, n) || mentions(db, *r, n),
        _ => false,
    }
}

pub open spec fn mentions_list(db: DbView, l: TypeList, n: nat) -> bool
    decreases l,
{
    match l {
        TypeList::Nil => false,
        TypeList::Cons(h, t) => mentions(db, *h, n) || mentions_list(db, *t, n),
    }
}

/// Whether a field of a record mentions `n`.
pub open spec fn fields_mention(db: DbView, fs: Seq<FieldView>, n: nat) -> bool {
    exists|i: int| 0 <= i < fs.len() && mentions(db, (#[trigger] fs[i]).ty, n)
}

/// Whether a payload of an enum mentions `n`.
pub open spec fn variants_mention(db: DbView, vs: Seq<VariantView>, n: nat) -> bool {
    exists|i: int| 0 <= i < vs.len() && mentions_list(db, (#[trigger] vs[i]).payload, n)
}

/// Whether the declaration of `a` mentions `b`.
pub open spec fn edge(db: DbView, a: nat, b: nat) -> bool {
    if a < db.records.len() {
        fields_mention(db, db.records[a as int].fields, b)
    } else if a < node_count(db) {
        variants_mention(db, db.enums[a - db.records.len()].variants, b)
    } else {
        false
    }
}

/// Whether `a` leads to `b` by at most `2^k` mentions.
pub open spec fn leads(db: DbView, k: nat, a: nat, b: nat) -> bool
    decreases k, 0nat,
{
    if k == 0 {
        edge(db, a, b)
    } else {
        leads(db, (k - 1) as nat, a, b) || leads_through(db, (k - 1) as nat, a, b, node_count(db))
    }
}

/// Whether `a` leads to `b` through one of the first `n` types.
pub open spec fn leads_through(db: DbView, k: nat, a: nat, b: nat, n: nat) -> bool
    decreases k, n + 1,
{
    n > 0 && (leads_through(db, k, a, b, (n - 1) as nat) || (leads(db, k, a, (n - 1) as nat) && leads(
        db,
        k,
        (n - 1) as nat,
        b,
    )))
}

/// Whether `a` leads to `b` at all: no path needs more mentions than there are types.
pub open spec fn reaches(db: DbView, a: nat, b: nat) -> bool {
    leads(db, DOUBLINGS as nat, a, b)
}

/// The name of a declared type; a shape without a name has none.
pub open spec fn node_name(db: DbView, n: nat) -> Seq<char> {
    if n < db.records.len() {
        match db.records[n as int].name {
            Some(s) => s,
            None => Seq::empty(),
        }
    } else if n < node_count(db) {
        match db.enums[n - db.records.len()].name {
            Some(s) => s,
            None => Seq::empty(),
        }
    } else {
        Seq::empty()
    }
}

/// The first of the types before `n` that `a` leads to and that leads back.
pub open spec fn companion(db: DbView, a: nat, n: nat) -> Option<nat>
    decreases n,
{
    if n == 0 {
        None
    } else {
        match companion(db, a, (n - 1) as nat) {
            Some(c) => Some(c),
            None => if (n - 1) as nat != a && reaches(db, a, (n - 1) as nat) && reaches(
                db,
                (n - 1) as nat,
                a,
            ) {
                Some((n - 1) as nat)
            } else {
                None
            },
        }
    }
}

/// The declared type a type is.
pub open spec fn node_of(db: DbView, t: Type) -> Option<nat> {
    match t {
        Type::Record(d, _) => Some(d.0 as nat),
        Type::Enum(d, _) => Some(db.records.len() + d.0 as nat),
        _ => None,
    }
}

pub open spec fn cycle_message(db: DbView, name: Seq<char>, a: nat) -> Seq<char> {
    match companion(db, a, node_count(db)) {
        Some(c) => "`"@ + name + "` refers to itself, through `"@ + node_name(db, c) + "`"@,
        None => "`"@ + name + "` refers to itself"@,
    }
}

/// Reports a declaration that leads back to itself.
pub open spec fn check_cycle(st: Inf, name: Ident) -> Inf {
    match type_named(st.types, name.text@) {
        Some(t) => match node_of(st.db, t) {
            Some(a) => if reaches(st.db, a, a) {
                report(
                    st,
                    name.range,
                    DiagCode::RecursiveTypeDeclaration,
                    cycle_message(st.db, name.text@, a),
                )
            } else {
                st
            },
            None => st,
        },
        None => st,
    }
}

/// The name an item declares a type under.
pub open spec fn declared_name(item: TopLevel) -> Option<Ident> {
    match item {
        TopLevel::Struct(s) => s.name,
        TopLevel::Enum(e) => e.name,
        _ => None,
    }
}

/// Reports every declaration that leads back to itself.
pub open spec fn check_cycles(st: Inf, items: Seq<TopLevel>) -> Inf
    decreases items.len(),
{
    if items.len() == 0 {
        st
    } else {
        let s1 = check_cycles(st, items.drop_last());
        match declared_name(items.last()) {
            Some(n) => check_cycle(s1, n),
            None => s1,
        }
    }
}

/// Whether a type mentions one of the first `n` types that is `a` or leads to it.
pub open spec fn leads_back(db: DbView, t: Type, a: nat, n: nat) -> bool
    decreases n,
{
    n > 0 && (leads_back(db, t, a, (n - 1) as nat) || (mentions(db, t, (n - 1) as nat) && (n - 1 == a
        || reaches(db, (n - 1) as nat, a))))
}

/// The fields of the record `a`, those that lead back to it left open.
pub open spec fn opened_fields(st: Inf, db: DbView, a: nat, fs: Seq<FieldView>) -> (
    Seq<FieldView>,
    Inf,
)
    decreases fs.len(),
{
    if fs.len() == 0 {
        (Seq::empty(), st)
    } else {
        let (front, s1) = opened_fields(st, db, a, fs.drop_last());
        if leads_back(db, fs.last().ty, a, node_count(db)) {
            let (v, s2) = fresh(s1);
            (front.push(FieldView { ty: v, ..fs.last() }), s2)
        } else {
            (front.push(fs.last()), s1)
        }
    }
}

/// Leaves open what leads back to a record, which its declaration was reported for.
pub open spec fn open_record(st: Inf, db: DbView, name: Ident) -> Inf {
    match type_named(st.types, name.text@) {
        Some(ty) => match ty {
            Type::Record(d, _) => if d.0 < node_count(db) && d.0 < st.db.records.len() {
                let (fs, s1) = opened_fields(st, db, d.0 as nat, st.db.records[d.0 as int].fields);
                set_fields(s1, ty, fs)
            } else {
                st
            },
            _ => st,
        },
        None => st,
    }
}

/// What a variant of the enum `a` carries, what leads back to it left open.
pub open spec fn opened_payload(st: Inf, db: DbView, a: nat, l: TypeList) -> (TypeList, Inf)
    decreases l,
{
    match l {
        TypeList::Nil => (TypeList::Nil, st),
        TypeList::Cons(h, t) => {
            let (first, s1) = if leads_back(db, *h, a, node_count(db)) {
                fresh(st)
            } else {
                (*h, st)
            };
            let (rest, s2) = opened_payload(s1, db, a, *t);
            (TypeList::Cons(Box::new(first), Box::new(rest)), s2)
        },
    }
}

/// The variants of the enum `a`, what leads back to it left open.
pub open spec fn opened_variants(st: Inf, db: DbView, a: nat, vs: Seq<VariantView>) -> (
    Seq<VariantView>,
    Inf,
)
    decreases vs.len(),
{
    if vs.len() == 0 {
        (Seq::empty(), st)
    } else {
        let (front, s1) = opened_variants(st, db, a, vs.drop_last());
        let (payload, s2) = opened_payload(s1, db, a, vs.last().payload);
        (front.push(VariantView { payload, ..vs.last() }), s2)
    }
}

/// Gives the name of a variant the type its definition now has.
pub open spec fn retype_variant(st: Inf, ty: Type, d: EnumDefId, v: VariantDecl) -> Inf {
    match v.name {
        Some(n) => match (at(st.decls, n.range), st.db.variant_index(d, n.text@)) {
            (Some(id), Some(i)) => set_scheme(
                st,
                id,
                monotype(
                    variant_type(st.db.enums[d.0 as int].variants[i as int].payload.seq(), ty),
                ),
            ),
            _ => st,
        },
        None => st,
    }
}

pub open spec fn retype_variants(st: Inf, ty: Type, d: EnumDefId, vs: Seq<VariantDecl>) -> Inf
    decreases vs.len(),
{
    if vs.len() == 0 {
        st
    } else {
        retype_variant(retype_variants(st, ty, d, vs.drop_last()), ty, d, vs.last())
    }
}

/// Leaves open what leads back to an enum, which its declaration was reported for.
pub open spec fn open_enum(st: Inf, db: DbView, name: Ident, decls: Seq<VariantDecl>) -> Inf {
    match type_named(st.types, name.text@) {
        Some(ty) => match ty {
            Type::Enum(d, _) => if db.records.len() + d.0 < node_count(db) && d.0
                < st.db.enums.len() {
                let (vs, s1) = opened_variants(
                    st,
                    db,
                    db.records.len() + d.0 as nat,
                    st.db.enums[d.0 as int].variants,
                );
                retype_variants(set_variants(s1, ty, vs), ty, d, decls)
            } else {
                st
            },
            _ => st,
        },
        None => st,
    }
}

pub open spec fn open_item(st: Inf, db: DbView, item: TopLevel) -> Inf {
    match item {
        TopLevel::Struct(s) => match s.name {
            Some(n) => open_record(st, db, n),
            None => st,
        },
        TopLevel::Enum(e) => match e.name {
            Some(n) => open_enum(st, db, n, e.variants@),
            None => st,
        },
        _ => st,
    }
}

pub open spec fn open_items(st: Inf, db: DbView, items: Seq<TopLevel>) -> Inf
    decreases items.len(),
{
    if items.len() == 0 {
        st
    } else {
        open_item(open_items(st, db, items.drop_last()), db, items.last())
    }
}

/// Reports the declarations that lead back to themselves and leaves open what
/// leads back, as far as the types can be counted.
pub open spec fn check_all_cycles(st: Inf, items: Seq<TopLevel>) -> Inf {
    if node_count(st.db) > usize::MAX {
        st
    } else {
        open_items(check_cycles(st, items), st.db, items)
    }
}

// ---------------------------------------------------------------------------
// Finding cycles
// ---------------------------------------------------------------------------

fn does_mention(records: usize, t: &Type, n: usize, Ghost(db): Ghost<DbView>) -> (r: bool)
    requires
        records == db.records.len(),
    ensures
        r == mentions(db, *t, n as nat),
    decreases t,
{
    match t {
        Type::Record(d, a) => n == d.0 as usize || does_mention_list(records, a, n, Ghost(db)),
        Type::Enum(d, a) => (n >= records && n - records == d.0 as usize) || does_mention_list(
            records,
            a,
            n,
            Ghost(db),
        ),
        Type::Collection(_, a) => does_mention_list(records, a, n, Ghost(db)),
        Type::Tuple(a) => does_mention_list(records, a, n, Ghost(db)),
        Type::Func(p, r) => does_mention_list(records, p, n, Ghost(db)) || does_mention(
            records,
            r,
            n,
            Ghost(db),
        ),
        _ => false,
    }
}

fn does_mention_list(records: usize, l: &TypeList, n: usize, Ghost(db): Ghost<DbView>) -> (r: bool)
    requires
        records == db.records.len(),
    ensures
        r == mentions_list(db, *l, n as nat),
    decreases l,
{
    match l {
        TypeList::Nil => false,
        TypeList::Cons(h, t) => does_mention(records, h, n, Ghost(db)) || does_mention_list(
            records,
            t,
            n,
            Ghost(db),
        ),
    }
}

fn record_mentions(db: &TypeDb, r: &RecordDef, n: usize) -> (b: bool)
    ensures
        b == fields_mention(db@, r@.fields, n as nat),
{
    let mut i: usize = 0;
    while i < r.fields.len()
        invariant
            i <= r.fields@.len(),
            forall|j: int| 0 <= j < i ==> !mentions(db@, (#[trigger] r@.fields[j]).ty, n as nat),
        decreases r.fields@.len() - i,
    {
        assert(r@.fields[i as int] == r.fields@[i as int]@);
        if does_mention(db.records.len(), &r.fields[i].ty, n, Ghost(db@)) {
            return true;
        }
        i += 1;
    }
    false
}

fn enum_mentions(db: &TypeDb, e: &EnumDef, n: usize) -> (b: bool)
    ensures
        b == variants_mention(db@, e@.variants, n as nat),
{
    let mut i: usize = 0;
    while i < e.variants.len()
        invariant
            i <= e.variants@.len(),
            forall|j: int|
                0 <= j < i ==> !mentions_list(db@, (#[trigger] e@.variants[j]).payload, n as nat),
        decreases e.variants@.len() - i,
    {
        assert(e@.variants[i as int] == e.variants@[i as int]@);
        if does_mention_list(db.records.len(), &e.variants[i].payload, n, Ghost(db@)) {
            return true;
        }
        i += 1;
    }
    false
}

fn has_edge(db: &TypeDb, a: usize, b: usize) -> (r: bool)
    ensures
        r == edge(db@, a as nat, b as nat),
{
    let records: usize = db.records.len();
    if a < records {
        assert(db@.records[a as int] == db.records@[a as int]@);
        record_mentions(db, &db.records[a], b)
    } else if a - records < db.enums.len() {
        let i: usize = a - records;
        assert(db@.enums[i as int] == db.enums@[i as int]@);
        enum_mentions(db, &db.enums[i], b)
    } else {
        false
    }
}

/// For each two types, whether the first leads to the second.
pub open spec fn is_table(db: DbView, k: nat, table: Seq<Vec<bool>>) -> bool {
    &&& table.len() == node_count(db)
    &&& forall|a: int|
        0 <= a < table.len() ==> (#[trigger] table[a])@.len() == node_count(db) && row_holds(
            db,
            k,
            a as nat,
            table[a]@,
        )
}

pub open spec fn row_holds(db: DbView, k: nat, a: nat, row: Seq<bool>) -> bool {
    forall|b: int| 0 <= b < row.len() ==> (#[trigger] row[b]) == leads(db, k, a, b as nat)
}

fn through(table: &Vec<Vec<bool>>, a: usize, b: usize, Ghost(db): Ghost<DbView>, Ghost(k): Ghost<nat>) -> (r:
    bool)
    requires
        is_table(db, k, table@),
        a < table@.len(),
        b < table@.len(),
    ensures
        r == leads_through(db, k, a as nat, b as nat, node_count(db)),
{
    let mut found = false;
    let mut n: usize = 0;
    while n < table.len()
        invariant
            n <= table@.len(),
            is_table(db, k, table@),
            a < table@.len(),
            b < table@.len(),
            found == leads_through(db, k, a as nat, b as nat, n as nat),
        decreases table@.len() - n,
    {
        assert(row_holds(db, k, a as nat, table@[a as int]@));
        assert(row_holds(db, k, n as nat, table@[n as int]@));
        if table[a][n] && table[n][b] {
            found = true;
        }
        n += 1;
    }
    found
}

fn doubled(table: &Vec<Vec<bool>>, Ghost(db): Ghost<DbView>, Ghost(k): Ghost<nat>) -> (r: Vec<Vec<bool>>)
    requires
        is_table(db, k, table@),
    ensures
        is_table(db, k + 1, r@),
{
    let n: usize = table.len();
    let mut out: Vec<Vec<bool>> = Vec::new();
    let mut a: usize = 0;
    while a < n
        invariant
            a <= n,
            n == table@.len(),
            n == node_count(db),
            is_table(db, k, table@),
            out@.len() == a,
            forall|i: int|
                0 <= i < a ==> (#[trigger] out@[i])@.len() == n && row_holds(
                    db,
                    k + 1,
                    i as nat,
                    out@[i]@,
                ),
        decreases n - a,
    {
        let mut row: Vec<bool> = Vec::new();
        let mut b: usize = 0;
        while b < n
            invariant
                a < n,
                b <= n,
                n == table@.len(),
                n == node_count(db),
                is_table(db, k, table@),
                row@.len() == b,
                row_holds(db, k + 1, a as nat, row@),
            decreases n - b,
        {
            assert(row_holds(db, k, a as nat, table@[a as int]@));
            let linked = table[a][b] || through(table, a, b, Ghost(db), Ghost(k));
            assert(linked == leads(db, k + 1, a as nat, b as nat));
            let ghost before = row@;
            row.push(linked);
            assert forall|i: int| 0 <= i < row@.len() implies (#[trigger] row@[i]) == leads(
                db,
                k + 1,
                a as nat,
                i as nat,
            ) by {
                if i < b {
                    assert(row@[i] == before[i]);
                }
            }
            b += 1;
        }
        out.push(row);
        a += 1;
    }
    out
}

fn first_table(db: &TypeDb, n: usize) -> (r: Vec<Vec<bool>>)
    requires
        n == node_count(db@),
    ensures
        is_table(db@, 0, r@),
{
    let mut out: Vec<Vec<bool>> = Vec::new();
    let mut a: usize = 0;
    while a < n
        invariant
            a <= n,
            n == node_count(db@),
            out@.len() == a,
            forall|i: int|
                0 <= i < a ==> (#[trigger] out@[i])@.len() == n && row_holds(
                    db@,
                    0,
                    i as nat,
                    out@[i]@,
                ),
        decreases n - a,
    {
        let mut row: Vec<bool> = Vec::new();
        let mut b: usize = 0;
        while b < n
            invariant
                a < n,
                b <= n,
                n == node_count(db@),
                row@.len() == b,
                row_holds(db@, 0, a as nat, row@),
            decreases n - b,
        {
            let linked = has_edge(db, a, b);
            let ghost before = row@;
            row.push(linked);
            assert forall|i: int| 0 <= i < row@.len() implies (#[trigger] row@[i]) == leads(
                db@,
                0,
                a as nat,
                i as nat,
            ) by {
                if i < b {
                    assert(row@[i] == before[i]);
                }
            }
            b += 1;
        }
        out.push(row);
        a += 1;
    }
    out
}

/// The table of what leads to what. Without one there are more types than can be
/// counted.
fn reach_table(db: &TypeDb) -> (r: Option<Vec<Vec<bool>>>)
    ensures
        match r {
            Some(t) => is_table(db@, DOUBLINGS as nat, t@),
            None => node_count(db@) > usize::MAX,
        },
{
    let Some(n) = db.records.len().checked_add(db.enums.len()) else {
        return None;
    };
    let mut table = first_table(db, n);
    let mut k: u32 = 0;
    while k < DOUBLINGS
        invariant
            k <= DOUBLINGS,
            is_table(db@, k as nat, table@),
        decreases DOUBLINGS - k,
    {
        table = doubled(&table, Ghost(db@), Ghost(k as nat));
        k += 1;
    }
    Some(table)
}

/// What is not declared leads nowhere.
proof fn lemma_undeclared(db: DbView, k: nat, a: nat, b: nat)
    requires
        a >= node_count(db),
    ensures
        !leads(db, k, a, b),
    decreases k, 0nat,
{
    if k > 0 {
        lemma_undeclared(db, (k - 1) as nat, a, b);
        lemma_undeclared_through(db, (k - 1) as nat, a, b, node_count(db));
    }
}

proof fn lemma_undeclared_through(db: DbView, k: nat, a: nat, b: nat, n: nat)
    requires
        a >= node_count(db),
    ensures
        !leads_through(db, k, a, b, n),
    decreases k, n + 1,
{
    if n > 0 {
        lemma_undeclared_through(db, k, a, b, (n - 1) as nat);
        lemma_undeclared(db, k, a, (n - 1) as nat);
    }
}

fn table_reaches(table: &Vec<Vec<bool>>, a: usize, b: usize, Ghost(db): Ghost<DbView>) -> (r: bool)
    requires
        is_table(db, DOUBLINGS as nat, table@),
        b < table@.len() || a >= table@.len(),
    ensures
        r == reaches(db, a as nat, b as nat),
{
    if a < table.len() {
        assert(row_holds(db, DOUBLINGS as nat, a as nat, table@[a as int]@));
        table[a][b]
    } else {
        proof {
            lemma_undeclared(db, DOUBLINGS as nat, a as nat, b as nat);
        }
        false
    }
}

fn find_companion(table: &Vec<Vec<bool>>, a: usize, Ghost(db): Ghost<DbView>) -> (r: Option<usize>)
    requires
        is_table(db, DOUBLINGS as nat, table@),
        a < table@.len(),
    ensures
        match companion(db, a as nat, node_count(db)) {
            Some(c) => r matches Some(x) && x == c,
            None => r is None,
        },
{
    let mut found: Option<usize> = None;
    let mut n: usize = 0;
    while n < table.len()
        invariant
            n <= table@.len(),
            a < table@.len(),
            is_table(db, DOUBLINGS as nat, table@),
            match companion(db, a as nat, n as nat) {
                Some(c) => found matches Some(x) && x == c,
                None => found is None,
            },
        decreases table@.len() - n,
    {
        if found.is_none() && n != a && table_reaches(table, a, n, Ghost(db)) && table_reaches(
            table,
            n,
            a,
            Ghost(db),
        ) {
            found = Some(n);
        }
        n += 1;
    }
    found
}

fn does_lead_back(
    table: &Vec<Vec<bool>>,
    records: usize,
    t: &Type,
    a: usize,
    Ghost(db): Ghost<DbView>,
) -> (r: bool)
    requires
        is_table(db, DOUBLINGS as nat, table@),
        records == db.records.len(),
        a < table@.len(),
    ensures
        r == leads_back(db, *t, a as nat, node_count(db)),
{
    let mut found = false;
    let mut n: usize = 0;
    while n < table.len()
        invariant
            n <= table@.len(),
            is_table(db, DOUBLINGS as nat, table@),
            records == db.records.len(),
            a < table@.len(),
            found == leads_back(db, *t, a as nat, n as nat),
        decreases table@.len() - n,
    {
        if does_mention(records, t, n, Ghost(db)) {
            if n == a || table_reaches(table, n, a, Ghost(db)) {
                found = true;
            }
        }
        n += 1;
    }
    found
}

/// Opening a payload adds variables and leaves the definitions alone.
proof fn lemma_opening_keeps_enums(st: Inf, db: DbView, a: nat, l: TypeList)
    ensures
        opened_payload(st, db, a, l).1.db.enums == st.db.enums,
    decreases l,
{
    if let TypeList::Cons(h, t) = l {
        let s1 = if leads_back(db, *h, a, node_count(db)) {
            fresh(st).1
        } else {
            st
        };
        lemma_opening_keeps_enums(s1, db, a, *t);
    }
}

fn name_of(db: &TypeDb, n: usize) -> (r: String)
    ensures
        r@ == node_name(db@, n as nat),
{
    let records: usize = db.records.len();
    if n < records {
        assert(db@.records[n as int] == db.records@[n as int]@);
        match &db.records[n].name {
            Some(s) => s.clone(),
            None => String::new(),
        }
    } else if n - records < db.enums.len() {
        let i: usize = n - records;
        assert(db@.enums[i as int] == db.enums@[i as int]@);
        match &db.enums[i].name {
            Some(s) => s.clone(),
            None => String::new(),
        }
    } else {
        String::new()
    }
}

impl Inferer {
    fn check_cycle(&mut self, table: &Vec<Vec<bool>>, name: &Ident)
        requires
            is_table(old(self)@.db, DOUBLINGS as nat, table@),
        ensures
            final(self)@ == check_cycle(old(self)@, *name),
    {
        let Some(t) = self.type_named(&name.text) else {
            return;
        };
        let ghost db = self@.db;
        let a: Option<usize> = match &t {
            Type::Record(d, _) => Some(d.0 as usize),
            Type::Enum(d, _) => self.db.records.len().checked_add(d.0 as usize),
            _ => None,
        };
        let count: usize = table.len();
        let Some(a) = a else {
            assert(count == node_count(db));
            proof {
                if let Some(n) = node_of(db, t) {
                    lemma_undeclared(db, DOUBLINGS as nat, n, n);
                }
            }
            return;
        };
        if !table_reaches(table, a, a, Ghost(db)) {
            return;
        }
        proof {
            if a >= table@.len() {
                lemma_undeclared(db, DOUBLINGS as nat, a as nat, a as nat);
            }
        }
        let message = match find_companion(table, a, Ghost(db)) {
            Some(c) => {
                let other = name_of(&self.db, c);
                text5("`", &name.text, "` refers to itself, through `", &other, "`")
            },
            None => text3("`", &name.text, "` refers to itself"),
        };
        self.report(name.range, DiagCode::RecursiveTypeDeclaration, message);
    }

    fn report_cycles(&mut self, table: &Vec<Vec<bool>>, items: &Vec<TopLevel>)
        requires
            is_table(old(self)@.db, DOUBLINGS as nat, table@),
        ensures
            final(self)@ == check_cycles(old(self)@, items@),
            final(self)@.db == old(self)@.db,
    {
        let mut i: usize = 0;
        while i < items.len()
            invariant
                i <= items@.len(),
                self@.db == old(self)@.db,
                is_table(self@.db, DOUBLINGS as nat, table@),
                self@ == check_cycles(old(self)@, items@.take(i as int)),
            decreases items@.len() - i,
        {
            assert(items@.take(i + 1).drop_last() =~= items@.take(i as int));
            assert(items@.take(i + 1).last() == items@[i as int]);
            match &items[i] {
                TopLevel::Struct(s) => {
                    if let Some(n) = &s.name {
                        self.check_cycle(table, n);
                    }
                },
                TopLevel::Enum(e) => {
                    if let Some(n) = &e.name {
                        self.check_cycle(table, n);
                    }
                },
                _ => {},
            }
            i += 1;
        }
        assert(items@.take(i as int) =~= items@);
    }

    fn opened_fields(
        &mut self,
        table: &Vec<Vec<bool>>,
        records: usize,
        a: usize,
        Ghost(db): Ghost<DbView>,
    ) -> (r: Vec<FieldDef>)
        requires
            is_table(db, DOUBLINGS as nat, table@),
            records == db.records.len(),
            a < table@.len(),
            a < old(self)@.db.records.len(),
        ensures
            (field_views(r@), final(self)@) == opened_fields(
                old(self)@,
                db,
                a as nat,
                old(self)@.db.records[a as int].fields,
            ),
    {
        let ghost fs = self@.db.records[a as int].fields;
        let mut out: Vec<FieldDef> = Vec::new();
        assert(field_views(out@) =~= Seq::empty());
        assert(fs == self.db.records@[a as int]@.fields);
        let n: usize = self.db.records[a].fields.len();
        let mut i: usize = 0;
        while i < n
            invariant
                i <= n,
                n == fs.len(),
                is_table(db, DOUBLINGS as nat, table@),
                records == db.records.len(),
                a < table@.len(),
                a < self@.db.records.len(),
                self@.db.records[a as int].fields == fs,
                (field_views(out@), self@) == opened_fields(
                    old(self)@,
                    db,
                    a as nat,
                    fs.take(i as int),
                ),
            decreases n - i,
        {
            assert(fs.take(i + 1).drop_last() =~= fs.take(i as int));
            assert(fs.take(i + 1).last() == fs[i as int]);
            assert(fs == self.db.records@[a as int]@.fields);
            let f = &self.db.records[a].fields[i];
            assert(f@ == fs[i as int]);
            let name = f.name.clone();
            let ghost before = field_views(out@);
            let open = does_lead_back(table, records, &f.ty, a, Ghost(db));
            let ty = if open {
                self.fresh()
            } else {
                f.ty.dup()
            };
            out.push(FieldDef { name, ty });
            assert(field_views(out@) =~= before.push(FieldView { ty, ..fs[i as int] }));
            i += 1;
        }
        assert(fs.take(i as int) =~= fs);
        out
    }

    fn open_record(&mut self, table: &Vec<Vec<bool>>, records: usize, name: &Ident, Ghost(db): Ghost<DbView>)
        requires
            is_table(db, DOUBLINGS as nat, table@),
            records == db.records.len(),
        ensures
            final(self)@ == open_record(old(self)@, db, *name),
    {
        let Some(ty) = self.type_named(&name.text) else {
            return;
        };
        if let Type::Record(d, _) = &ty {
            let a: usize = d.0 as usize;
            if a < table.len() && a < self.db.records.len() {
                let fields = self.opened_fields(table, records, a, Ghost(db));
                self.set_fields(&ty, fields);
            }
        }
    }

    fn opened_payload(
        &mut self,
        table: &Vec<Vec<bool>>,
        records: usize,
        a: usize,
        l: &TypeList,
        Ghost(db): Ghost<DbView>,
    ) -> (r: TypeList)
        requires
            is_table(db, DOUBLINGS as nat, table@),
            records == db.records.len(),
            a < table@.len(),
        ensures
            (r, final(self)@) == opened_payload(old(self)@, db, a as nat, *l),
        decreases l,
    {
        match l {
            TypeList::Nil => TypeList::Nil,
            TypeList::Cons(h, t) => {
                let open = does_lead_back(table, records, h, a, Ghost(db));
                let first = if open {
                    self.fresh()
                } else {
                    h.dup()
                };
                let rest = self.opened_payload(table, records, a, t, Ghost(db));
                TypeList::Cons(Box::new(first), Box::new(rest))
            },
        }
    }

    fn opened_variants(
        &mut self,
        table: &Vec<Vec<bool>>,
        records: usize,
        a: usize,
        d: usize,
        Ghost(db): Ghost<DbView>,
    ) -> (r: Vec<VariantDef>)
        requires
            is_table(db, DOUBLINGS as nat, table@),
            records == db.records.len(),
            a < table@.len(),
            d < old(self)@.db.enums.len(),
        ensures
            (variant_views(r@), final(self)@) == opened_variants(
                old(self)@,
                db,
                a as nat,
                old(self)@.db.enums[d as int].variants,
            ),
    {
        let ghost vs = self@.db.enums[d as int].variants;
        let mut out: Vec<VariantDef> = Vec::new();
        assert(variant_views(out@) =~= Seq::empty());
        assert(vs == self.db.enums@[d as int]@.variants);
        let n: usize = self.db.enums[d].variants.len();
        let mut i: usize = 0;
        while i < n
            invariant
                i <= n,
                n == vs.len(),
                is_table(db, DOUBLINGS as nat, table@),
                records == db.records.len(),
                a < table@.len(),
                d < self@.db.enums.len(),
                self@.db.enums[d as int].variants == vs,
                (variant_views(out@), self@) == opened_variants(
                    old(self)@,
                    db,
                    a as nat,
                    vs.take(i as int),
                ),
            decreases n - i,
        {
            assert(vs.take(i + 1).drop_last() =~= vs.take(i as int));
            assert(vs.take(i + 1).last() == vs[i as int]);
            assert(vs == self.db.enums@[d as int]@.variants);
            let v = &self.db.enums[d].variants[i];
            assert(v@ == vs[i as int]);
            let name = v.name.clone();
            let given = v.payload.dup();
            let ghost before = variant_views(out@);
            let ghost s1 = self@;
            let payload = self.opened_payload(table, records, a, &given, Ghost(db));
            proof {
                lemma_opening_keeps_enums(s1, db, a as nat, given);
            }
            out.push(VariantDef { name, payload });
            assert(variant_views(out@) =~= before.push(VariantView { payload, ..vs[i as int] }));
            i += 1;
        }
        assert(vs.take(i as int) =~= vs);
        out
    }

    fn retype_variant(&mut self, ty: &Type, d: EnumDefId, v: &VariantDecl)
        ensures
            final(self)@ == retype_variant(old(self)@, *ty, d, *v),
    {
        let Some(n) = &v.name else {
            return;
        };
        let found: Option<SymbolId> = match self.decls.get(n.range) {
            Some(id) => Some(*id),
            None => None,
        };
        let (Some(id), Some(i)) = (found, self.db.variant_index(d, &n.text)) else {
            return;
        };
        assert(self@.db.enums[d.0 as int] == self.db.enums@[d.0 as int]@);
        let e = &self.db.enums[d.0 as usize];
        assert(e@.variants[i as int] == e.variants@[i as int]@);
        let payload = e.variants[i].payload.to_vec();
        let t = crate::infer_file::variant_type(&payload, ty);
        self.set_scheme(id, Scheme::monotype(t));
    }

    fn open_enum(
        &mut self,
        table: &Vec<Vec<bool>>,
        records: usize,
        name: &Ident,
        decls: &Vec<VariantDecl>,
        Ghost(db): Ghost<DbView>,
    )
        requires
            is_table(db, DOUBLINGS as nat, table@),
            records == db.records.len(),
        ensures
            final(self)@ == open_enum(old(self)@, db, *name, decls@),
    {
        let Some(ty) = self.type_named(&name.text) else {
            return;
        };
        if let Type::Enum(d, _) = &ty {
            let i: usize = d.0 as usize;
            let count: usize = table.len();
            if count >= records && i < count - records && i < self.db.enums.len() {
                let variants = self.opened_variants(table, records, records + i, i, Ghost(db));
                self.set_variants(&ty, variants);
                let ghost s1 = self@;
                let mut k: usize = 0;
                while k < decls.len()
                    invariant
                        k <= decls@.len(),
                        self@ == retype_variants(s1, ty, *d, decls@.take(k as int)),
                    decreases decls@.len() - k,
                {
                    assert(decls@.take(k + 1).drop_last() =~= decls@.take(k as int));
                    assert(decls@.take(k + 1).last() == decls@[k as int]);
                    self.retype_variant(&ty, *d, &decls[k]);
                    k += 1;
                }
                assert(decls@.take(k as int) =~= decls@);
            }
        }
    }

    fn open_items(
        &mut self,
        table: &Vec<Vec<bool>>,
        records: usize,
        items: &Vec<TopLevel>,
        Ghost(db): Ghost<DbView>,
    )
        requires
            is_table(db, DOUBLINGS as nat, table@),
            records == db.records.len(),
        ensures
            final(self)@ == open_items(old(self)@, db, items@),
    {
        let mut i: usize = 0;
        while i < items.len()
            invariant
                i <= items@.len(),
                is_table(db, DOUBLINGS as nat, table@),
                records == db.records.len(),
                self@ == open_items(old(self)@, db, items@.take(i as int)),
            decreases items@.len() - i,
        {
            assert(items@.take(i + 1).drop_last() =~= items@.take(i as int));
            assert(items@.take(i + 1).last() == items@[i as int]);
            match &items[i] {
                TopLevel::Struct(s) => {
                    if let Some(n) = &s.name {
                        self.open_record(table, records, n, Ghost(db));
                    }
                },
                TopLevel::Enum(e) => {
                    if let Some(n) = &e.name {
                        self.open_enum(table, records, n, &e.variants, Ghost(db));
                    }
                },
                _ => {},
            }
            i += 1;
        }
        assert(items@.take(i as int) =~= items@);
    }

    /// Reports every declaration that leads back to itself, and leaves open what
    /// leads back.
    pub fn check_cycles(&mut self, items: &Vec<TopLevel>)
        ensures
            final(self)@ == check_all_cycles(old(self)@, items@),
    {
        let Some(table) = reach_table(&self.db) else {
            return;
        };
        let count: usize = table.len();
        assert(count == node_count(self@.db));
        let ghost db = self@.db;
        let records: usize = self.db.records.len();
        self.report_cycles(&table, items);
        self.open_items(&table, records, items, Ghost(db));
    }
}

// ---------------------------------------------------------------------------
// Laws
// ---------------------------------------------------------------------------

/// What a declaration mentions it leads to, however far paths are followed.
pub proof fn law_mentions_lead(db: DbView, k: nat, a: nat, b: nat)
    requires
        edge(db, a, b),
    ensures
        leads(db, k, a, b),
    decreases k,
{
    if k > 0 {
        law_mentions_lead(db, (k - 1) as nat, a, b);
    }
}

/// Paths join: what leads to a declared type leads to whatever that leads to.
pub proof fn law_paths_join(db: DbView, k: nat, a: nat, c: nat, b: nat)
    requires
        c < node_count(db),
        leads(db, k, a, c),
        leads(db, k, c, b),
    ensures
        leads(db, k + 1, a, b),
{
    lemma_through(db, k, a, c, b, node_count(db));
}

proof fn lemma_through(db: DbView, k: nat, a: nat, c: nat, b: nat, n: nat)
    requires
        c < n,
        leads(db, k, a, c),
        leads(db, k, c, b),
    ensures
        leads_through(db, k, a, b, n),
    decreases n,
{
    if c + 1 < n {
        lemma_through(db, k, a, c, b, (n - 1) as nat);
    }
}

} // verus!
