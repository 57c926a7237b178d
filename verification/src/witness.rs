//! Naming a value that a `match` leaves out.
use vstd::prelude::*;

use crate::exhaustive::{
    all_any, all_first, anys, complete, count_variants, default_rows, defaulted, first_keys,
    first_type, has_key, is_complete, key_count, keys_of, lemma_anys_all_any,
    lemma_defaulted_tests, lemma_own_keys, lemma_specialized_tests, parts_of, parts_types, replaced,
    rest_types, single, specialize, specialized, tests, tests_for, type_first, types_after, useful,
    useful_under, variant_count, Cover, Key, Keys, Row, Rows,
};
use crate::source::{text, text2, text3};
use crate::typedb::{DbView, TypeDb};
use crate::types::{EnumDefId, RecordDefId, ScalarType, Type, TypeList};

verus! {

// ---------------------------------------------------------------------------
// What is missing
// ---------------------------------------------------------------------------

/// The first of the first `n` variants of an enum that is not tested for.
pub open spec fn first_untested(keys: Keys, def: EnumDefId, n: nat) -> Option<nat>
    decreases n,
{
    if n == 0 {
        None
    } else {
        match first_untested(keys, def, (n - 1) as nat) {
            Some(i) => Some(i),
            None => if tests_for(keys, Key::Variant(def, (n - 1) as u32)) {
                None
            } else {
                Some((n - 1) as nat)
            },
        }
    }
}

fn find_untested(keys: &Keys, def: EnumDefId, n: usize) -> (r: Option<usize>)
    ensures
        match first_untested(*keys, def, n as nat) {
            Some(i) => r matches Some(x) && x == i && x < n,
            None => r is None,
        },
    decreases n,
{
    if n == 0 {
        None
    } else {
        match find_untested(keys, def, n - 1) {
            Some(i) => Some(i),
            None => if has_key(keys, &Key::Variant(def, (n - 1) as u32)) {
                None
            } else {
                Some(n - 1)
            },
        }
    }
}

/// A wildcard for each type of a list.
pub open spec fn blanks(l: TypeList) -> Row
    decreases l,
{
    match l {
        TypeList::Nil => Row::Nil,
        TypeList::Cons(_, t) => Row::Cons(Box::new(Cover::Any), Box::new(blanks(*t))),
    }
}

fn blank_row(l: &TypeList) -> (r: Row)
    ensures
        r == blanks(*l),
    decreases l,
{
    match l {
        TypeList::Nil => Row::Nil,
        TypeList::Cons(_, t) => Row::Cons(Box::new(Cover::Any), Box::new(blank_row(t))),
    }
}

/// What passes none of the tests `keys`, of the values of type `t`: a variant or a
/// truth value where one is left, else anything.
pub open spec fn missing(db: DbView, t: Type, keys: Keys) -> Cover {
    if keys is Nil {
        Cover::Any
    } else {
        match db.resolve(t) {
            Type::Scalar(ScalarType::Bool) => Cover::Test(
                Key::Bool(!tests_for(keys, Key::Bool(true))),
                Row::Nil,
            ),
            Type::Enum(def, _) => match (
                db.enum_def(def),
                first_untested(keys, def, variant_count(db, def)),
            ) {
                (Some(e), Some(i)) => Cover::Test(
                    Key::Variant(def, i as u32),
                    blanks(e.variants[i as int].payload),
                ),
                _ => Cover::Any,
            },
            _ => Cover::Any,
        }
    }
}

fn find_missing(db: &TypeDb, t: &Type, keys: &Keys) -> (r: Cover)
    ensures
        r == missing(db@, *t, *keys),
{
    if let Keys::Nil = keys {
        return Cover::Any;
    }
    match &db.deep_resolve(t) {
        Type::Scalar(ScalarType::Bool) => Cover::Test(
            Key::Bool(!has_key(keys, &Key::Bool(true))),
            Row::Nil,
        ),
        Type::Enum(def, _) => {
            let n: usize = count_variants(db, *def);
            match find_untested(keys, *def, n) {
                Some(i) => {
                    let d: usize = def.0 as usize;
                    assert(db@.enums[d as int] == db.enums@[d as int]@);
                    assert(db@.enums[d as int].variants[i as int]
                        == db.enums@[d as int].variants@[i as int]@);
                    Cover::Test(
                        Key::Variant(*def, i as u32),
                        blank_row(&db.enums[d].variants[i].payload),
                    )
                },
                None => Cover::Any,
            }
        },
        _ => Cover::Any,
    }
}

/// The first `n` patterns of a row.
pub open spec fn front(row: Row, n: nat) -> Row
    decreases row,
{
    match row {
        Row::Nil => Row::Nil,
        Row::Cons(p, rest) => if n == 0 {
            Row::Nil
        } else {
            Row::Cons(p, Box::new(front(*rest, (n - 1) as nat)))
        },
    }
}

/// The patterns of a row after the first `n`.
pub open spec fn back(row: Row, n: nat) -> Row
    decreases row,
{
    match row {
        Row::Nil => Row::Nil,
        Row::Cons(p, rest) => if n == 0 {
            row
        } else {
            back(*rest, (n - 1) as nat)
        },
    }
}

fn split(row: Row, n: usize) -> (r: (Row, Row))
    ensures
        r.0 == front(row, n as nat),
        r.1 == back(row, n as nat),
    decreases row,
{
    match row {
        Row::Nil => (Row::Nil, Row::Nil),
        Row::Cons(p, rest) => if n == 0 {
            (Row::Nil, Row::Cons(p, rest))
        } else {
            let (a, b) = split(*rest, n - 1);
            (Row::Cons(p, Box::new(a)), b)
        },
    }
}

/// Patterns side by side, for values of the types `ts` that match none of `rows`.
pub open spec fn witness(db: DbView, ts: Seq<Type>, rows: Rows) -> Option<Row>
    decreases tests(rows), ts.len(), 1nat, 0nat,
{
    if ts.len() == 0 {
        if rows is Nil {
            Some(Row::Nil)
        } else {
            None
        }
    } else if complete(db, ts[0], first_keys(rows)) {
        proof {
            lemma_own_keys(rows);
        }
        witness_under(db, ts, first_keys(rows), rows)
    } else {
        proof {
            lemma_defaulted_tests(rows);
        }
        match witness(db, ts.skip(1), defaulted(rows)) {
            Some(w) => Some(
                Row::Cons(Box::new(missing(db, ts[0], first_keys(rows))), Box::new(w)),
            ),
            None => None,
        }
    }
}

/// The same, for values whose first passes one of the tests `keys`.
pub open spec fn witness_under(db: DbView, ts: Seq<Type>, keys: Keys, rows: Rows) -> Option<Row>
    decreases tests(rows), ts.len(), 0nat, key_count(keys),
    when all_first(keys, rows)
{
    match keys {
        Keys::Nil => None,
        Keys::Cons(k, more) => {
            let found = match parts_types(db, first_type(ts), k) {
                Some(parts) => {
                    proof {
                        lemma_specialized_tests(k, parts.len(), rows);
                    }
                    match witness(db, parts + rest_types(ts), specialized(k, parts.len(), rows)) {
                        Some(w) => Some(
                            Row::Cons(
                                Box::new(Cover::Test(k, front(w, parts.len()))),
                                Box::new(back(w, parts.len())),
                            ),
                        ),
                        None => None,
                    }
                },
                None => None,
            };
            match found {
                Some(w) => Some(w),
                None => witness_under(db, ts, *more, rows),
            }
        },
    }
}

pub(crate) fn find_witness(db: &TypeDb, ts: &Vec<Type>, rows: &Rows) -> (r: Option<Row>)
    ensures
        r == witness(db@, ts@, *rows),
    decreases tests(*rows), ts@.len(), 1nat, 0nat,
{
    if ts.len() == 0 {
        return match rows {
            Rows::Nil => Some(Row::Nil),
            _ => None,
        };
    }
    let keys = keys_of(rows);
    if is_complete(db, &ts[0], &keys) {
        proof {
            lemma_own_keys(*rows);
        }
        find_witness_under(db, ts, &keys, rows)
    } else {
        proof {
            lemma_defaulted_tests(*rows);
        }
        match find_witness(db, &types_after(ts), &default_rows(rows)) {
            Some(w) => Some(Row::Cons(Box::new(find_missing(db, &ts[0], &keys)), Box::new(w))),
            None => None,
        }
    }
}

fn find_witness_under(db: &TypeDb, ts: &Vec<Type>, keys: &Keys, rows: &Rows) -> (r: Option<Row>)
    requires
        all_first(*keys, *rows),
    ensures
        r == witness_under(db@, ts@, *keys, *rows),
    decreases tests(*rows), ts@.len(), 0nat, key_count(*keys),
{
    match keys {
        Keys::Nil => None,
        Keys::Cons(k, more) => {
            if let Some(parts) = parts_of(db, &type_first(ts), k) {
                let n: usize = parts.len();
                proof {
                    lemma_specialized_tests(*k, n as nat, *rows);
                }
                if let Some(w) = find_witness(db, &replaced(&parts, ts), &specialize(k, n, rows)) {
                    let (a, b) = split(w, n);
                    return Some(Row::Cons(Box::new(Cover::Test(k.dup(), a)), Box::new(b)));
                }
            }
            find_witness_under(db, ts, more, rows)
        },
    }
}

// ---------------------------------------------------------------------------
// How it is written
// ---------------------------------------------------------------------------

pub open spec fn variant_name(db: DbView, def: EnumDefId, i: u32) -> Seq<char> {
    match db.enum_def(def) {
        Some(e) => if i < e.variants.len() {
            e.variants[i as int].name
        } else {
            "_"@
        },
        None => "_"@,
    }
}

fn name_variant(db: &TypeDb, def: EnumDefId, i: u32) -> (r: String)
    ensures
        r@ == variant_name(db@, def, i),
{
    let d: usize = def.0 as usize;
    if d < db.enums.len() {
        assert(db@.enums[d as int] == db.enums@[d as int]@);
        let e = &db.enums[d];
        if (i as usize) < e.variants.len() {
            assert(e@.variants[i as int] == e.variants@[i as int]@);
            return text(&e.variants[i as usize].name);
        }
    }
    text("_")
}

pub open spec fn record_name(db: DbView, def: RecordDefId) -> Seq<char> {
    match db.record_def(def) {
        Some(d) => match d.name {
            Some(s) => s + " "@,
            None => ""@,
        },
        None => ""@,
    }
}

fn name_record(db: &TypeDb, def: RecordDefId) -> (r: String)
    ensures
        r@ == record_name(db@, def),
{
    let d: usize = def.0 as usize;
    if d < db.records.len() {
        assert(db@.records[d as int] == db.records@[d as int]@);
        if let Some(s) = &db.records[d].name {
            return text2(s, " ");
        }
    }
    text("")
}

pub open spec fn field_name(db: DbView, def: RecordDefId, i: nat) -> Seq<char> {
    db.records[def.0 as int].fields[i as int].name
}

fn name_field(db: &TypeDb, def: RecordDefId, i: usize) -> (r: String)
    requires
        i < db@.field_count(def),
    ensures
        r@ == field_name(db@, def, i as nat),
{
    let d: usize = def.0 as usize;
    assert(db@.records[d as int] == db.records@[d as int]@);
    let e = &db.records[d];
    assert(e@.fields[i as int] == e.fields@[i as int]@);
    text(&e.fields[i].name)
}

fn count_fields(db: &TypeDb, def: RecordDefId) -> (r: usize)
    ensures
        r == db@.field_count(def),
{
    let d: usize = def.0 as usize;
    if d < db.records.len() {
        assert(db@.records[d as int] == db.records@[d as int]@);
        db.records[d].fields.len()
    } else {
        0
    }
}

/// A pattern as the source writes it.
pub open spec fn written(db: DbView, c: Cover) -> Seq<char>
    decreases c,
{
    match c {
        Cover::Test(Key::Variant(def, i), subs) => if subs is Nil {
            variant_name(db, def, i)
        } else {
            variant_name(db, def, i) + ("("@ + written_row(db, subs) + ")"@)
        },
        Cover::Test(Key::Tuple, subs) => "("@ + written_row(db, subs) + ")"@,
        Cover::Test(Key::Record(def), subs) => record_name(db, def) + ("{ "@ + written_fields(
            db,
            def,
            subs,
            0,
        ) + " }"@),
        Cover::Test(Key::Bool(b), _) => if b {
            "true"@
        } else {
            "false"@
        },
        Cover::Test(Key::Unit, _) => "()"@,
        _ => "_"@,
    }
}

/// Patterns side by side, as the source writes them.
pub open spec fn written_row(db: DbView, row: Row) -> Seq<char>
    decreases row,
{
    match row {
        Row::Nil => ""@,
        Row::Cons(p, rest) => if *rest is Nil {
            written(db, *p)
        } else {
            written(db, *p) + ", "@ + written_row(db, *rest)
        },
    }
}

/// The fields of a record from the one at `i` on, with their patterns.
pub open spec fn written_fields(db: DbView, def: RecordDefId, row: Row, i: nat) -> Seq<char>
    decreases row,
{
    match row {
        Row::Nil => ""@,
        Row::Cons(p, rest) => if i >= db.field_count(def) {
            ""@
        } else {
            let first = field_name(db, def, i) + ": "@ + written(db, *p);
            if *rest is Nil {
                first
            } else {
                first + ", "@ + written_fields(db, def, *rest, i + 1)
            }
        },
    }
}

fn is_nil(row: &Row) -> (r: bool)
    ensures
        r == (*row is Nil),
{
    match row {
        Row::Nil => true,
        _ => false,
    }
}

fn write_cover(db: &TypeDb, c: &Cover) -> (r: String)
    ensures
        r@ == written(db@, *c),
    decreases c,
{
    match c {
        Cover::Test(Key::Variant(def, i), subs) => {
            let name = name_variant(db, *def, *i);
            if is_nil(subs) {
                name
            } else {
                text2(&name, &text3("(", &write_row(db, subs), ")"))
            }
        },
        Cover::Test(Key::Tuple, subs) => text3("(", &write_row(db, subs), ")"),
        Cover::Test(Key::Record(def), subs) => {
            let name = name_record(db, *def);
            text2(&name, &text3("{ ", &write_fields(db, *def, subs, 0), " }"))
        },
        Cover::Test(Key::Bool(b), _) => if *b {
            text("true")
        } else {
            text("false")
        },
        Cover::Test(Key::Unit, _) => text("()"),
        _ => text("_"),
    }
}

fn write_row(db: &TypeDb, row: &Row) -> (r: String)
    ensures
        r@ == written_row(db@, *row),
    decreases row,
{
    match row {
        Row::Nil => text(""),
        Row::Cons(p, rest) => {
            let first = write_cover(db, p);
            if is_nil(rest) {
                first
            } else {
                text3(&first, ", ", &write_row(db, rest))
            }
        },
    }
}

fn write_fields(db: &TypeDb, def: RecordDefId, row: &Row, i: usize) -> (r: String)
    ensures
        r@ == written_fields(db@, def, *row, i as nat),
    decreases row,
{
    match row {
        Row::Nil => text(""),
        Row::Cons(p, rest) => {
            if i >= count_fields(db, def) {
                return text("");
            }
            let first = text3(&name_field(db, def, i), ": ", &write_cover(db, p));
            if is_nil(rest) {
                first
            } else {
                text3(&first, ", ", &write_fields(db, def, rest, i + 1))
            }
        },
    }
}

/// What a `match` is reported to leave out. A gap among values that cannot be
/// listed asks for an arm instead of naming one of them.
pub open spec fn gap_message(db: DbView, w: Option<Row>) -> Seq<char> {
    match w {
        Some(Row::Cons(c, _)) => if *c is Any {
            "this `match` needs a catch-all arm: `_`"@
        } else {
            "this `match` does not cover `"@ + written(db, *c) + "`"@
        },
        _ => "this `match` does not cover every case"@,
    }
}

pub(crate) fn describe_gap(db: &TypeDb, w: &Option<Row>) -> (r: String)
    ensures
        r@ == gap_message(db@, *w),
{
    match w {
        Some(Row::Cons(c, _)) => match &**c {
            Cover::Any => text("this `match` needs a catch-all arm: `_`"),
            _ => text3("this `match` does not cover `", &write_cover(db, c), "`"),
        },
        _ => text("this `match` does not cover every case"),
    }
}

// ---------------------------------------------------------------------------
// Laws
// ---------------------------------------------------------------------------

/// A missing case is named exactly where a `match` leaves something out.
pub proof fn law_a_gap_is_named(db: DbView, ty: Type, rows: Rows)
    ensures
        witness(db, seq![ty], rows) is Some == useful(db, seq![ty], rows, single(Cover::Any)),
{
    assert(all_any(Row::Nil));
    assert(Row::Nil.spec_len() == 0);
    assert(all_any(single(Cover::Any)));
    lemma_witness(db, seq![ty], rows, single(Cover::Any));
}

proof fn lemma_witness(db: DbView, ts: Seq<Type>, rows: Rows, q: Row)
    requires
        all_any(q),
        q.spec_len() == ts.len(),
    ensures
        witness(db, ts, rows) is Some == useful(db, ts, rows, q),
    decreases tests(rows), ts.len(), 1nat, 0nat,
{
    if let Row::Cons(p, rest) = q {
        if complete(db, ts[0], first_keys(rows)) {
            lemma_own_keys(rows);
            lemma_witness_under(db, ts, first_keys(rows), rows, *rest);
        } else {
            lemma_defaulted_tests(rows);
            lemma_witness(db, ts.skip(1), defaulted(rows), *rest);
        }
    }
}

proof fn lemma_witness_under(db: DbView, ts: Seq<Type>, keys: Keys, rows: Rows, rest: Row)
    requires
        all_any(rest),
        rest.spec_len() + 1 == ts.len(),
        all_first(keys, rows),
    ensures
        witness_under(db, ts, keys, rows) is Some == useful_under(db, ts, keys, rows, rest),
    decreases tests(rows), ts.len(), 0nat, key_count(keys),
{
    if let Keys::Cons(k, more) = keys {
        if let Some(parts) = parts_types(db, first_type(ts), k) {
            let n = parts.len();
            lemma_specialized_tests(k, n, rows);
            lemma_anys_all_any(n, rest);
            lemma_witness(db, parts + rest_types(ts), specialized(k, n, rows), anys(n, rest));
        }
        lemma_witness_under(db, ts, *more, rows, rest);
    }
}

} // verus!
