//! What the types of expressions are, whatever they are made of.
use vstd::prelude::*;

use crate::analysis::MethodRowView;
use crate::ast::{
    AssignToken, BinToken, Block, Expr, ExprKind, FieldInit, Ident, LitToken, Param, PlaceAssignOp,
    StmtKind, UnaryToken,
};
use crate::infer_spec::{
    all_comparable, bin_type, bind_name, bool_type, both_at, call_type, check_field, comparable,
    ctor_named, enter, expect, expect_each, field_of, fields_comparable, first_row, fresh,
    in_scope, infer_block, infer_closure, infer_expr, infer_for, infer_if, infer_kind, infer_list,
    infer_literal, infer_name, infer_opt, infer_or_unit, infer_stmt, infer_stmts, item_of,
    iterable, law_a_use_of_one_type_is_that_type, loop_type, names_field, need_code, note_break,
    note_continue, note_return, numeric, orderable, param_types, payload_types, place_op,
    plain_type, report_missing, require, row_fits, same_head, sized_arity, sized_params, store,
    store_op, subscript, supports, takes_args, tuple_get, unary_type, variant_result, variant_type,
    Answer, Inf, StoreOp,
};
use crate::source::{
    decimal_digits, lemma_decimal_injective, lemma_decimal_nonempty, DiagCode, FileSpan, Span,
};
use crate::symbol::SymbolId;
use crate::tables::at;
use crate::tree::LitView;
use crate::typedb::{binder_name, monotype, scalar_name, Capability, DbView, FieldView};
use crate::types::{
    law_lists_are_their_elements, CollectionCtor, EnumDefId, RecordDefId, ScalarType, Type,
    TypeList,
};
use crate::unify::{
    known, law_clashing_types_do_not_unify, law_equal_types_unify, law_unified_types_are_equal,
    law_unify_most_general, law_unifying_only_adds, lemma_scalars_make_nothing_never, unify_spec,
    well_formed,
};
use crate::value_laws::{
    denoted, field_called, is_of, lemma_field_index, lemma_variant_index, variant_called, Value,
};

verus! {

// ---------------------------------------------------------------------------
// Agreement
// ---------------------------------------------------------------------------

/// Expecting a type of a value that has it changes nothing.
pub proof fn law_expecting_what_is_there_changes_nothing(st: Inf, want: Type, got: Type, span: Span)
    requires
        st.db.resolve(want) == st.db.resolve(got),
    ensures
        expect(st, want, got, span) == st,
{
    law_equal_types_unify(st.db.solution, want, got);
}

/// Whether values of two types are never of one type.
pub open spec fn clash(a: Type, b: Type) -> bool {
    match (a, b) {
        (Type::Var(_), _) => false,
        (_, Type::Var(_)) => false,
        (Type::Scalar(x), Type::Scalar(y)) => x != y,
        (Type::Collection(c, _), Type::Collection(d, _)) => c != d,
        (Type::Func(_, _), Type::Func(_, _)) => false,
        (Type::Tuple(_), Type::Tuple(_)) => false,
        (Type::Enum(c, _), Type::Enum(d, _)) => c != d,
        (Type::Record(c, _), Type::Record(d, _)) => c != d,
        (Type::Unit, Type::Unit) => false,
        (Type::Never, Type::Never) => false,
        _ => true,
    }
}

/// Expecting a type of a value of another is reported once, as a mismatch, over
/// the value; nothing is learned.
pub proof fn law_mismatches_are_reported(st: Inf, want: Type, got: Type, span: Span)
    requires
        clash(st.db.resolve(want), st.db.resolve(got)),
        !(st.db.resolve(got) is Never),
    ensures
        ({
            let out = expect(st, want, got, span);
            &&& out.diags.len() == st.diags.len() + 1
            &&& out.diags.drop_last() == st.diags
            &&& out.diags.last().code == DiagCode::TypeMismatch
            &&& out.diags.last().primary == (FileSpan { file: st.file, span })
            &&& out.db == st.db
        }),
{
    law_clashing_types_do_not_unify(st.db.solution, want, got);
    assert(expect(st, want, got, span).diags.drop_last() =~= st.diags);
}

/// An open type becomes the type that is expected of it.
pub proof fn law_open_types_become_what_is_expected(st: Inf, want: Type, got: Type, span: Span)
    requires
        well_formed(st.db.solution),
        known(st.db.solution, want),
        known(st.db.solution, got),
        expect(st, want, got, span).diags == st.diags,
        st.db.resolve(want) is Scalar,
        !(st.db.resolve(got) is Never),
    ensures
        expect(st, want, got, span).db.resolve(got) == st.db.resolve(want),
        expect(st, want, got, span).db.resolve(want) == st.db.resolve(want),
{
    let s = st.db.solution;
    if unify_spec(s, want, got) is Some {
        law_unified_types_are_equal(s, want, got);
        law_unifying_only_adds(s, want, got, want, want);
    } else {
        assert(expect(st, want, got, span).diags.len() == st.diags.len() + 1);
    }
}

// ---------------------------------------------------------------------------
// Operators
// ---------------------------------------------------------------------------

pub open spec fn is_comparison(op: BinToken) -> bool {
    op == BinToken::Eq2 || op == BinToken::Neq || op == BinToken::Lt || op == BinToken::Gt || op
        == BinToken::LtEq || op == BinToken::GtEq
}

pub open spec fn is_logic(op: BinToken) -> bool {
    op == BinToken::Pipe2 || op == BinToken::Amp2
}

pub open spec fn is_arithmetic(op: BinToken) -> bool {
    op == BinToken::Plus || op == BinToken::Minus || op == BinToken::Star || op == BinToken::Slash
        || op == BinToken::Percent
}

/// `==`, `!=`, `<`, `>`, `<=`, `>=`, `||` and `&&` give a `Bool`, whatever their
/// operands are.
pub proof fn law_comparisons_and_logic_give_a_bool(
    st: Inf,
    op: BinToken,
    l: Type,
    r: Type,
    at_l: Span,
    at_r: Span,
    whole: Span,
)
    requires
        is_comparison(op) || is_logic(op),
    ensures
        bin_type(st, Some(op), l, r, at_l, at_r, whole).0 == Type::Scalar(ScalarType::Bool),
{
}

/// `+`, `-`, `*`, `/` and `%` never give a `Bool`: they give a `Text` where an
/// operand is one, else a `Float` where an operand is one, else an `Int`.
pub proof fn law_arithmetic_gives_an_operand_type(
    st: Inf,
    op: BinToken,
    l: Type,
    r: Type,
    at_l: Span,
    at_r: Span,
    whole: Span,
)
    requires
        is_arithmetic(op),
    ensures
        ({
            let t = bin_type(st, Some(op), l, r, at_l, at_r, whole).0;
            let a = st.db.resolve(l);
            let b = st.db.resolve(r);
            let text = Type::Scalar(ScalarType::Text);
            let float = Type::Scalar(ScalarType::Float);
            &&& t == text <==> (a == text || b == text)
            &&& t == float <==> (a == float || b == float) && t != text
            &&& t == text || t == float || t == Type::Scalar(ScalarType::Int)
        }),
{
}

proof fn lemma_scalar_stays(st: Inf, t: Type, x: Type, want: Type, got: Type, span: Span)
    requires
        well_formed(st.db.solution),
        known(st.db.solution, want),
        known(st.db.solution, got),
        t is Scalar,
        st.db.resolve(x) == t,
    ensures
        expect(st, want, got, span).db.resolve(x) == t,
{
    if unify_spec(st.db.solution, want, got) is Some {
        law_unifying_only_adds(st.db.solution, want, got, x, x);
    }
}

proof fn lemma_both_at(st: Inf, t: Type, l: Type, r: Type, at_l: Span, at_r: Span)
    requires
        t is Scalar,
        well_formed(st.db.solution),
        known(st.db.solution, l),
        known(st.db.solution, r),
        !(st.db.resolve(l) is Never),
        !(st.db.resolve(r) is Never),
        both_at(st, t, l, r, at_l, at_r).diags.len() == st.diags.len(),
    ensures
        both_at(st, t, l, r, at_l, at_r).db.resolve(l) == t,
        both_at(st, t, l, r, at_l, at_r).db.resolve(r) == t,
        both_at(st, t, l, r, at_l, at_r).diags == st.diags,
{
    let s = st.db.solution;
    let s1 = expect(st, t, l, at_l);
    let s2 = expect(s1, t, r, at_r);
    assert(known(s, t));
    assert(s1.diags.len() >= st.diags.len());
    assert(s2.diags.len() >= s1.diags.len());
    law_open_types_become_what_is_expected(st, t, l, at_l);
    law_unify_most_general(s, t, l, |v: u32| Type::Unit);
    lemma_scalars_make_nothing_never(s, t, l, r);
    law_open_types_become_what_is_expected(s1, t, r, at_r);
    lemma_scalar_stays(s1, t, l, t, r, at_r);
}

/// Operands that are accepted have, from then on, the type of the operation where
/// it is `+`, `-`, `*`, `/` or `%`, are `Bool` where it is `||` or `&&`, and are of
/// one type where it is a comparison. No text is subtracted, multiplied or
/// divided, and no float has a remainder.
pub proof fn law_accepted_operands_agree(
    st: Inf,
    op: BinToken,
    l: Type,
    r: Type,
    at_l: Span,
    at_r: Span,
    whole: Span,
)
    requires
        well_formed(st.db.solution),
        known(st.db.solution, l),
        known(st.db.solution, r),
        !(st.db.resolve(l) is Never),
        !(st.db.resolve(r) is Never),
        bin_type(st, Some(op), l, r, at_l, at_r, whole).1.diags.len() == st.diags.len(),
    ensures
        ({
            let (t, out) = bin_type(st, Some(op), l, r, at_l, at_r, whole);
            let a = out.db.resolve(l);
            let b = out.db.resolve(r);
            &&& is_arithmetic(op) ==> a == t && b == t
            &&& is_logic(op) ==> a == Type::Scalar(ScalarType::Bool) && b == Type::Scalar(
                ScalarType::Bool,
            )
            &&& is_comparison(op) ==> a == b
            &&& is_arithmetic(op) && t == Type::Scalar(ScalarType::Text) ==> op == BinToken::Plus
            &&& t == Type::Scalar(ScalarType::Float) ==> op != BinToken::Percent
        }),
{
    let s = st.db.solution;
    if is_comparison(op) {
        let s1 = expect(st, l, r, at_r);
        if unify_spec(s, l, r) is Some {
            law_unified_types_are_equal(s, l, r);
        } else {
            assert(s1.diags.len() == st.diags.len() + 1);
        }
    } else if is_logic(op) {
        lemma_both_at(st, bool_type(), l, r, at_l, at_r);
    } else {
        let t = bin_type(st, Some(op), l, r, at_l, at_r, whole).0;
        let s1 = both_at(st, t, l, r, at_l, at_r);
        assert(s1.diags.len() >= st.diags.len());
        lemma_both_at(st, t, l, r, at_l, at_r);
    }
}

/// Which operators values of a type have: every type its comparisons for
/// equality, but for functions; numbers, texts and characters an order; numbers
/// arithmetic, of which floats lack the remainder, and texts `+`; `Bool` logic.
pub open spec fn has_operator(t: ScalarType, op: BinToken) -> bool {
    match t {
        ScalarType::Int => is_comparison(op) || is_arithmetic(op),
        ScalarType::Float => is_comparison(op) || (is_arithmetic(op) && op != BinToken::Percent),
        ScalarType::Text => is_comparison(op) || op == BinToken::Plus,
        ScalarType::Char => is_comparison(op),
        ScalarType::Bool => is_logic(op) || op == BinToken::Eq2 || op == BinToken::Neq,
    }
}

/// Two operands of one scalar type are accepted in silence by exactly the
/// operators the type has.
pub proof fn law_operators_of_scalars(
    st: Inf,
    op: BinToken,
    t: ScalarType,
    l: Type,
    r: Type,
    at_l: Span,
    at_r: Span,
    whole: Span,
)
    requires
        st.db.resolve(l) == Type::Scalar(t),
        st.db.resolve(r) == Type::Scalar(t),
    ensures
        ({
            let (result, out) = bin_type(st, Some(op), l, r, at_l, at_r, whole);
            &&& has_operator(t, op) ==> out == st
            &&& !has_operator(t, op) ==> out.diags.len() > st.diags.len()
            &&& is_arithmetic(op) && has_operator(t, op) ==> result == Type::Scalar(t)
        }),
{
    let s = st.db.solution;
    law_equal_types_unify(s, l, r);
    let want = match op {
        BinToken::Pipe2 | BinToken::Amp2 => ScalarType::Bool,
        BinToken::Plus => if t == ScalarType::Text {
            t
        } else if t == ScalarType::Float {
            t
        } else {
            ScalarType::Int
        },
        _ => if t == ScalarType::Float {
            t
        } else {
            ScalarType::Int
        },
    };
    if want != t {
        law_clashing_types_do_not_unify(s, Type::Scalar(want), l);
        assert(expect(st, Type::Scalar(want), l, at_l).diags.len() == st.diags.len() + 1);
    } else {
        law_equal_types_unify(s, Type::Scalar(want), l);
        law_equal_types_unify(s, Type::Scalar(want), r);
        assert(expect(st, Type::Scalar(t), l, at_l) == st);
        assert(expect(st, Type::Scalar(t), r, at_r) == st);
    }
    assert(both_at(st, Type::Scalar(want), l, r, at_l, at_r).diags.len() >= expect(
        st,
        Type::Scalar(want),
        l,
        at_l,
    ).diags.len());
}

/// Operands of two scalar types are never accepted.
pub proof fn law_mixed_operands_are_reported(
    st: Inf,
    op: BinToken,
    t: ScalarType,
    u: ScalarType,
    l: Type,
    r: Type,
    at_l: Span,
    at_r: Span,
    whole: Span,
)
    requires
        t != u,
        st.db.resolve(l) == Type::Scalar(t),
        st.db.resolve(r) == Type::Scalar(u),
    ensures
        bin_type(st, Some(op), l, r, at_l, at_r, whole).1.diags.len() > st.diags.len(),
{
    let s = st.db.solution;
    law_clashing_types_do_not_unify(s, l, r);
    let (x, _) = bin_type(st, Some(op), l, r, at_l, at_r, whole);
    if let Type::Scalar(z) = x {
        if z != t {
            law_clashing_types_do_not_unify(s, x, l);
        } else {
            law_equal_types_unify(s, x, l);
            law_clashing_types_do_not_unify(s, x, r);
            assert(expect(st, x, l, at_l) == st);
        }
        assert(both_at(st, x, l, r, at_l, at_r).diags.len() > st.diags.len());
    }
}

/// `!` takes a `Bool` and gives one; `-` takes a number and gives one of its type;
/// everything else is reported.
pub proof fn law_unary_operators(
    st: Inf,
    op: UnaryToken,
    t: ScalarType,
    x: Type,
    span: Span,
)
    requires
        st.db.resolve(x) == Type::Scalar(t),
    ensures
        ({
            let (result, out) = unary_type(st, Some(op), x, span);
            let takes = if op == UnaryToken::Bang {
                t == ScalarType::Bool
            } else {
                t == ScalarType::Int || t == ScalarType::Float
            };
            &&& takes ==> out == st && result == Type::Scalar(t)
            &&& !takes ==> out.diags.len() == st.diags.len() + 1
            &&& op == UnaryToken::Bang ==> result == Type::Scalar(ScalarType::Bool)
        }),
{
    let want = unary_type(st, Some(op), x, span).0;
    if want == Type::Scalar(t) {
        law_equal_types_unify(st.db.solution, want, x);
    } else {
        law_clashing_types_do_not_unify(st.db.solution, want, x);
    }
}

// ---------------------------------------------------------------------------
// Stores
// ---------------------------------------------------------------------------

/// The operator that an assignment applies to the old value, if it does.
pub open spec fn operator_of(tok: AssignToken) -> Option<BinToken> {
    match tok {
        AssignToken::Eq => None,
        AssignToken::PlusEq => Some(BinToken::Plus),
        AssignToken::MinusEq => Some(BinToken::Minus),
        AssignToken::StarEq => Some(BinToken::Star),
        AssignToken::SlashEq => Some(BinToken::Slash),
        AssignToken::PercentEq => Some(BinToken::Percent),
    }
}

/// The operator that a store to a place applies to the old value, if it does.
pub open spec fn place_operator_of(op: PlaceAssignOp) -> Option<BinToken> {
    match op {
        PlaceAssignOp::Plus => Some(BinToken::Plus),
        PlaceAssignOp::Minus => Some(BinToken::Minus),
        PlaceAssignOp::Times => Some(BinToken::Star),
        PlaceAssignOp::Div => Some(BinToken::Slash),
        PlaceAssignOp::Rem => Some(BinToken::Percent),
        _ => None,
    }
}

/// A plain store of a value of the right type is accepted in silence. One that
/// applies an operator to the old value is where the type has the operator, and
/// is reported where it has not.
pub proof fn law_stores_take_what_their_operator_takes(
    st: Inf,
    tok: AssignToken,
    t: ScalarType,
    target: Type,
    value: Type,
    at_value: Span,
    whole: Span,
)
    requires
        st.db.resolve(target) == Type::Scalar(t),
        st.db.resolve(value) == Type::Scalar(t),
    ensures
        ({
            let out = store(st, store_op(Some(tok)), target, value, at_value, whole);
            match operator_of(tok) {
                None => out == st,
                Some(op) => {
                    &&& has_operator(t, op) ==> out == st
                    &&& !has_operator(t, op) ==> out.diags.len() == st.diags.len() + 1
                },
            }
        }),
{
    law_equal_types_unify(st.db.solution, target, value);
}

/// The same of stores to fields and subscripts; `min=` and `max=` take numbers.
pub proof fn law_place_stores_take_what_their_operator_takes(
    st: Inf,
    how: PlaceAssignOp,
    t: ScalarType,
    target: Type,
    value: Type,
    at_value: Span,
    whole: Span,
)
    requires
        st.db.resolve(target) == Type::Scalar(t),
        st.db.resolve(value) == Type::Scalar(t),
    ensures
        ({
            let out = store(st, place_op(how), target, value, at_value, whole);
            let taken = match place_operator_of(how) {
                Some(op) => has_operator(t, op),
                None => how == PlaceAssignOp::Store || t == ScalarType::Int || t
                    == ScalarType::Float,
            };
            &&& taken ==> out == st
            &&& !taken ==> out.diags.len() == st.diags.len() + 1
        }),
{
    law_equal_types_unify(st.db.solution, target, value);
}

/// A store of a value of another scalar type is never accepted.
pub proof fn law_stores_of_other_types_are_reported(
    st: Inf,
    how: StoreOp,
    t: ScalarType,
    u: ScalarType,
    target: Type,
    value: Type,
    at_value: Span,
    whole: Span,
)
    requires
        t != u,
        st.db.resolve(target) == Type::Scalar(t),
        st.db.resolve(value) == Type::Scalar(u),
    ensures
        store(st, how, target, value, at_value, whole).diags.len() == st.diags.len() + 1,
{
    law_clashing_types_do_not_unify(st.db.solution, target, value);
}

// ---------------------------------------------------------------------------
// What values can do
// ---------------------------------------------------------------------------

/// Numbers are `Int` and `Float`; what has an order are the numbers, texts and
/// characters; and what has an order can be compared for equality.
pub proof fn law_numbers_have_an_order(db: DbView, t: Type, keys: bool, depth: nat)
    ensures
        numeric(t) == Answer::Yes <==> t == Type::Scalar(ScalarType::Int) || t == Type::Scalar(
            ScalarType::Float,
        ) || t is Never,
        orderable(t) == Answer::Yes <==> numeric(t) == Answer::Yes || t == Type::Scalar(
            ScalarType::Text,
        ) || t == Type::Scalar(ScalarType::Char),
        orderable(t) == Answer::Yes ==> comparable(db, keys, depth, t) == Answer::Yes,
        numeric(t) == Answer::Later <==> t is Var,
        orderable(t) == Answer::Later <==> t is Var,
        iterable(t) == Answer::Later <==> t is Var,
{
}

/// What can be a key can be compared for equality.
pub proof fn law_keys_can_be_compared(db: DbView, depth: nat, t: Type)
    ensures
        comparable(db, true, depth, t) == Answer::Yes ==> comparable(db, false, depth, t)
            == Answer::Yes,
    decreases 2 * depth, t, 0nat,
{
    match t {
        Type::Tuple(a) => lemma_keys_compared(db, depth, a),
        Type::Enum(_, a) => lemma_keys_compared(db, depth, a),
        Type::Record(d, a) => {
            lemma_keys_compared(db, depth, a);
            if let Some(r) = db.record_def(d) {
                if depth > 0 {
                    lemma_fields_compared(db, (depth - 1) as nat, r.fields);
                }
            }
        },
        _ => {},
    }
}

proof fn lemma_keys_compared(db: DbView, depth: nat, l: TypeList)
    ensures
        all_comparable(db, true, depth, l) == Answer::Yes ==> all_comparable(db, false, depth, l)
            == Answer::Yes,
    decreases 2 * depth, l, 0nat,
{
    if let TypeList::Cons(h, t) = l {
        law_keys_can_be_compared(db, depth, *h);
        lemma_keys_compared(db, depth, *t);
    }
}

proof fn lemma_fields_compared(db: DbView, depth: nat, fields: Seq<FieldView>)
    ensures
        fields_comparable(db, true, depth, fields) == Answer::Yes ==> fields_comparable(
            db,
            false,
            depth,
            fields,
        ) == Answer::Yes,
    decreases 2 * depth + 1, fields, 0nat,
{
    if fields.len() > 0 {
        lemma_fields_compared(db, depth, fields.drop_last());
        law_keys_can_be_compared(db, depth, fields.last().ty);
    }
}

/// Whether a function stands in a type, behind no definition.
pub open spec fn holds_function(t: Type) -> bool
    decreases t,
{
    match t {
        Type::Func(_, _) => true,
        Type::Collection(c, a) => c != CollectionCtor::Range && list_holds_function(a),
        Type::Tuple(a) => list_holds_function(a),
        Type::Enum(_, a) => list_holds_function(a),
        Type::Record(_, a) => list_holds_function(a),
        _ => false,
    }
}

pub open spec fn list_holds_function(l: TypeList) -> bool
    decreases l,
{
    match l {
        TypeList::Nil => false,
        TypeList::Cons(h, t) => holds_function(*h) || list_holds_function(*t),
    }
}

/// What holds a function cannot be compared, nor be a key; and nothing that can
/// change can be a key.
pub proof fn law_functions_are_not_compared(db: DbView, keys: bool, depth: nat, t: Type)
    ensures
        holds_function(t) ==> comparable(db, keys, depth, t) == Answer::No,
        (t matches Type::Collection(c, _) && c != CollectionCtor::Range) ==> comparable(
            db,
            true,
            depth,
            t,
        ) == Answer::No,
    decreases t,
{
    match t {
        Type::Collection(_, a) => lemma_functions_not_compared(db, keys, depth, a),
        Type::Tuple(a) => lemma_functions_not_compared(db, keys, depth, a),
        Type::Enum(_, a) => lemma_functions_not_compared(db, keys, depth, a),
        Type::Record(_, a) => lemma_functions_not_compared(db, keys, depth, a),
        _ => {},
    }
}

proof fn lemma_functions_not_compared(db: DbView, keys: bool, depth: nat, l: TypeList)
    ensures
        list_holds_function(l) ==> all_comparable(db, keys, depth, l) == Answer::No,
    decreases l,
{
    if let TypeList::Cons(h, t) = l {
        law_functions_are_not_compared(db, keys, depth, *h);
        lemma_functions_not_compared(db, keys, depth, *t);
    }
}

/// A record with a field that cannot be compared cannot be either.
pub proof fn law_records_are_compared_by_their_fields(
    db: DbView,
    keys: bool,
    depth: nat,
    d: RecordDefId,
    args: TypeList,
    i: int,
)
    requires
        depth > 0,
        db.record_def(d) is Some,
        0 <= i < db.record_def(d)->0.fields.len(),
        comparable(db, keys, (depth - 1) as nat, db.record_def(d)->0.fields[i].ty) == Answer::No,
    ensures
        comparable(db, keys, depth, Type::Record(d, args)) == Answer::No,
{
    lemma_field_decides(db, keys, (depth - 1) as nat, db.record_def(d)->0.fields, i);
}

proof fn lemma_field_decides(
    db: DbView,
    keys: bool,
    depth: nat,
    fields: Seq<FieldView>,
    i: int,
)
    requires
        0 <= i < fields.len(),
        comparable(db, keys, depth, fields[i].ty) == Answer::No,
    ensures
        fields_comparable(db, keys, depth, fields) == Answer::No,
    decreases fields.len(),
{
    if i < fields.len() - 1 {
        lemma_field_decides(db, keys, depth, fields.drop_last(), i);
    }
}

/// Each thing that can be asked of a type is refused with a code of its own.
pub proof fn law_refusals_have_their_codes(a: Capability, b: Capability)
    ensures
        need_code(a) == need_code(b) <==> a == b,
{
}

/// What a requirement comes to: it is met in silence, refused with its code at
/// its place, or kept for later, and only of an open type it is kept.
pub proof fn law_requirements_are_met_or_refused(
    st: Inf,
    what: Capability,
    t: Type,
    other: Type,
    span: Span,
)
    requires
        what != Capability::Iterable,
    ensures
        ({
            let out = require(st, what, t, other, span);
            match supports(st.db, what, st.db.resolve(t)) {
                Answer::Yes => out == st,
                Answer::No => {
                    &&& out.diags.len() == st.diags.len() + 1
                    &&& out.diags.last().code == need_code(what)
                    &&& out.diags.last().primary == (FileSpan { file: st.file, span })
                    &&& out.needs == st.needs
                },
                Answer::Later => out.diags == st.diags && out.needs.len() == st.needs.len() + 1,
            }
        }),
{
}

// ---------------------------------------------------------------------------
// Items and subscripts
// ---------------------------------------------------------------------------

/// What a walk over a collection of `x`s yields, and what its subscript takes and
/// gives.
pub proof fn law_items_and_subscripts(x: Type, y: Type)
    ensures
        ({
            let of = |c: CollectionCtor| Type::Collection(c, TypeList::of(seq![x]));
            let whole = Type::Scalar(ScalarType::Int);
            let map = Type::Collection(CollectionCtor::MapOf, TypeList::of(seq![x, y]));
            let text = Type::Scalar(ScalarType::Text);
            let letter = Type::Scalar(ScalarType::Char);
            let bits = Type::Collection(CollectionCtor::BitSet, TypeList::Nil);
            let range = Type::Collection(CollectionCtor::Range, TypeList::Nil);
            &&& item_of(of(CollectionCtor::Vec)) == Some(x)
            &&& item_of(of(CollectionCtor::Deque)) == Some(x)
            &&& item_of(of(CollectionCtor::SetOf)) == Some(x)
            &&& item_of(of(CollectionCtor::MinHeap)) == Some(x)
            &&& item_of(of(CollectionCtor::MaxHeap)) == Some(x)
            &&& item_of(of(CollectionCtor::Counter)) == Some(Type::Tuple(TypeList::of(seq![x, whole])))
            &&& item_of(map) == Some(Type::Tuple(TypeList::of(seq![x, y])))
            &&& item_of(of(CollectionCtor::Grid)) is None
            &&& item_of(bits) == Some(whole)
            &&& item_of(range) == Some(whole)
            &&& item_of(text) == Some(letter)
            &&& subscript(of(CollectionCtor::Vec)) == Some((seq![whole], x))
            &&& subscript(of(CollectionCtor::Deque)) == Some((seq![whole], x))
            &&& subscript(of(CollectionCtor::Counter)) == Some((seq![x], whole))
            &&& subscript(of(CollectionCtor::Grid)) == Some((seq![whole, whole], x))
            &&& subscript(map) == Some((seq![x], y))
            &&& subscript(text) == Some((seq![whole], letter))
            &&& subscript(of(CollectionCtor::SetOf)) is None
            &&& subscript(of(CollectionCtor::MinHeap)) is None
            &&& subscript(of(CollectionCtor::MaxHeap)) is None
            &&& subscript(bits) is None
            &&& subscript(range) is None
        }),
{
    reveal_with_fuel(TypeList::of, 4);
    let one = seq![x];
    let two = seq![x, y];
    let pair = seq![x, Type::Scalar(ScalarType::Int)];
    assert(one.skip(1) =~= Seq::empty());
    assert(two.skip(1) =~= seq![y]);
    assert(two.skip(1).skip(1) =~= Seq::empty());
    assert(pair.skip(1) =~= seq![Type::Scalar(ScalarType::Int)]);
    assert(pair.skip(1).skip(1) =~= Seq::empty());
}

/// What is not a collection or a text has neither items nor subscripts.
pub proof fn law_other_types_have_no_items(t: Type)
    requires
        !(t is Collection),
        t != Type::Scalar(ScalarType::Text),
    ensures
        item_of(t) is None,
        subscript(t) is None,
{
}

/// An element of a tuple has the type in its place, and past the end there is
/// none.
pub proof fn law_tuple_elements(st: Inf, ts: Seq<Type>, recv: Type, i: u64, span: Span)
    requires
        st.db.resolve(recv) == Type::Tuple(TypeList::of(ts)),
    ensures
        ({
            let (t, out) = tuple_get(st, recv, Some(i), span);
            &&& i < ts.len() ==> t == ts[i as int] && out == st
            &&& i >= ts.len() ==> out.diags.len() == st.diags.len() + 1 && out.diags.last().code
                == DiagCode::NoTupleElement
        }),
{
    law_lists_are_their_elements(TypeList::Nil, ts);
}

// ---------------------------------------------------------------------------
// Names of types
// ---------------------------------------------------------------------------

/// The name a scalar is shown under reads back as that scalar.
pub proof fn law_scalar_names_read_back(s: ScalarType)
    ensures
        plain_type(scalar_name(s)) == Some(Type::Scalar(s)),
        ctor_named(scalar_name(s)) is None,
{
    reveal_strlit("Int");
    reveal_strlit("Bool");
    reveal_strlit("Text");
    reveal_strlit("Char");
    reveal_strlit("Float");
    reveal_strlit("Unit");
    reveal_strlit("Never");
    lemma_names_differ(scalar_name(s));
}

proof fn lemma_names_differ(n: Seq<char>)
    ensures
        "Int"@ != "Bool"@,
        "Int"@ != "Text"@,
        "Int"@ != "Char"@,
        "Int"@ != "Float"@,
        "Bool"@ != "Text"@,
        "Bool"@ != "Char"@,
        "Bool"@ != "Float"@,
        "Text"@ != "Char"@,
        "Text"@ != "Float"@,
        "Char"@ != "Float"@,
        ctor_named(n) is Some ==> exists|c: CollectionCtor| n == #[trigger] c.spec_name(),
        forall|c: CollectionCtor| #![trigger c.spec_name()] c.spec_name() != "Int"@ && c.spec_name() != "Bool"@ && c.spec_name()
            != "Text"@ && c.spec_name() != "Char"@ && c.spec_name() != "Float"@,
{
    lemma_spelling();
    assert("Int"@[0] != "Bool"@[0]);
    assert("Int"@[0] != "Text"@[0]);
    assert("Int"@[0] != "Char"@[0]);
    assert("Int"@[0] != "Float"@[0]);
    assert("Bool"@[0] != "Text"@[0]);
    assert("Bool"@[0] != "Char"@[0]);
    assert("Bool"@[0] != "Float"@[0]);
    assert("Text"@[0] != "Char"@[0]);
    assert("Text"@[0] != "Float"@[0]);
    assert("Char"@[0] != "Float"@[0]);
    if ctor_named(n) is Some {
        assert(n == (ctor_named(n)->0).spec_name());
    }
}

proof fn lemma_spelling()
    ensures
        "Int"@.len() == 3 && "Int"@[0] == 'I',
        "Bool"@.len() == 4 && "Bool"@[0] == 'B',
        "Text"@.len() == 4 && "Text"@[0] == 'T',
        "Char"@.len() == 4 && "Char"@[0] == 'C',
        "Float"@.len() == 5 && "Float"@[0] == 'F',
        "Vec"@.len() == 3 && "Vec"@[0] == 'V',
        "Deque"@.len() == 5 && "Deque"@[0] == 'D',
        "Map"@.len() == 3 && "Map"@[0] == 'M',
        "Set"@.len() == 3 && "Set"@[0] == 'S',
        "Counter"@.len() == 7 && "Counter"@[0] == 'C',
        "MinHeap"@.len() == 7 && "MinHeap"@[0] == 'M' && "MinHeap"@[1] == 'i',
        "MaxHeap"@.len() == 7 && "MaxHeap"@[0] == 'M' && "MaxHeap"@[1] == 'a',
        "BitSet"@.len() == 6 && "BitSet"@[0] == 'B',
        "Grid"@.len() == 4 && "Grid"@[0] == 'G',
        "Range"@.len() == 5 && "Range"@[0] == 'R',
{
    reveal_strlit("Int");
    reveal_strlit("Bool");
    reveal_strlit("Text");
    reveal_strlit("Char");
    reveal_strlit("Float");
    reveal_strlit("Vec");
    reveal_strlit("Deque");
    reveal_strlit("Map");
    reveal_strlit("Set");
    reveal_strlit("Counter");
    reveal_strlit("MinHeap");
    reveal_strlit("MaxHeap");
    reveal_strlit("BitSet");
    reveal_strlit("Grid");
    reveal_strlit("Range");
}

/// The name of a collection reads back as that collection, and no two collections
/// share one.
pub proof fn law_collection_names_read_back(c: CollectionCtor, d: CollectionCtor)
    ensures
        ctor_named(c.spec_name()) == Some(c),
        c.spec_name() == d.spec_name() <==> c == d,
{
    lemma_spelling();
}

/// No two reports are of one code, by its letter and its number.
pub proof fn law_codes_are_told_apart(a: DiagCode, b: DiagCode)
    ensures
        a.spec_parts() == b.spec_parts() <==> a == b,
{
}

// ---------------------------------------------------------------------------
// Calls
// ---------------------------------------------------------------------------

/// Whether a value of type `got` can stand where a `want` is expected.
pub open spec fn agrees(db: DbView, want: Type, got: Type) -> bool {
    db.resolve(want) == db.resolve(got) || db.resolve(got) is Never
}

proof fn lemma_expect_keeps(st: Inf, want: Type, got: Type, span: Span, a: Type, b: Type)
    requires
        well_formed(st.db.solution),
        known(st.db.solution, want),
        known(st.db.solution, got),
    ensures
        ({
            let out = expect(st, want, got, span);
            &&& well_formed(out.db.solution)
            &&& out.db.solution.len() == st.db.solution.len()
            &&& out.diags.len() >= st.diags.len()
            &&& agrees(st.db, a, b) ==> agrees(out.db, a, b)
            &&& out.diags.len() == st.diags.len() ==> agrees(out.db, want, got)
        }),
{
    let s = st.db.solution;
    if !(st.db.resolve(got) is Never) {
        law_unify_most_general(s, want, got, |v: u32| Type::Unit);
        if unify_spec(s, want, got) is Some {
            law_unified_types_are_equal(s, want, got);
            law_unifying_only_adds(s, want, got, a, b);
            law_unifying_only_adds(s, want, got, b, b);
        }
    }
}

/// Arguments that are accepted have, from then on, the types of their parameters,
/// each in its place; one that never returns stands for anything.
pub proof fn law_accepted_arguments_agree(
    st: Inf,
    want: Seq<Type>,
    got: Seq<Type>,
    es: Seq<Expr>,
)
    requires
        want.len() == es.len(),
        got.len() == es.len(),
        well_formed(st.db.solution),
        forall|i: int| 0 <= i < es.len() ==> known(st.db.solution, #[trigger] want[i]),
        forall|i: int| 0 <= i < es.len() ==> known(st.db.solution, #[trigger] got[i]),
        expect_each(st, want, got, es).diags.len() == st.diags.len(),
    ensures
        forall|i: int|
            0 <= i < es.len() ==> agrees(
                expect_each(st, want, got, es).db,
                #[trigger] want[i],
                got[i],
            ),
{
    lemma_arguments(st, want, got, es);
}

proof fn lemma_arguments(st: Inf, want: Seq<Type>, got: Seq<Type>, es: Seq<Expr>)
    requires
        want.len() == es.len(),
        got.len() == es.len(),
        well_formed(st.db.solution),
        forall|i: int| 0 <= i < es.len() ==> known(st.db.solution, #[trigger] want[i]),
        forall|i: int| 0 <= i < es.len() ==> known(st.db.solution, #[trigger] got[i]),
    ensures
        ({
            let out = expect_each(st, want, got, es);
            &&& well_formed(out.db.solution)
            &&& out.db.solution.len() == st.db.solution.len()
            &&& out.diags.len() >= st.diags.len()
            &&& out.diags.len() == st.diags.len() ==> forall|i: int|
                0 <= i < es.len() ==> agrees(out.db, #[trigger] want[i], got[i])
        }),
    decreases es.len(),
{
    if es.len() > 0 {
        let n = es.len() - 1;
        let s1 = expect_each(st, want.drop_last(), got.drop_last(), es.drop_last());
        let out = expect_each(st, want, got, es);
        assert forall|i: int| 0 <= i < n implies known(
            st.db.solution,
            #[trigger] want.drop_last()[i],
        ) by {
            assert(want.drop_last()[i] == want[i]);
        }
        assert forall|i: int| 0 <= i < n implies known(
            st.db.solution,
            #[trigger] got.drop_last()[i],
        ) by {
            assert(got.drop_last()[i] == got[i]);
        }
        lemma_arguments(st, want.drop_last(), got.drop_last(), es.drop_last());
        assert(known(st.db.solution, want[n]));
        assert(known(st.db.solution, got[n]));
        assert(known(s1.db.solution, want[n]));
        assert(known(s1.db.solution, got[n]));
        lemma_expect_keeps(s1, want[n], got[n], es.last().range, want[n], got[n]);
        if out.diags.len() == st.diags.len() {
            assert forall|i: int| 0 <= i < es.len() implies agrees(
                out.db,
                #[trigger] want[i],
                got[i],
            ) by {
                if i < n {
                    assert(want.drop_last()[i] == want[i]);
                    assert(got.drop_last()[i] == got[i]);
                    lemma_expect_keeps(s1, want[n], got[n], es.last().range, want[i], got[i]);
                }
            }
        }
    }
}

/// A function is called with as many arguments as it takes, for its result: any
/// other number is reported, and so is a call of what is no function.
pub proof fn law_calls_take_what_the_function_takes(
    st: Inf,
    f: Type,
    ps: Seq<Type>,
    r: Type,
    got: Seq<Type>,
    es: Seq<Expr>,
    span: Span,
)
    ensures
        st.db.resolve(f) == Type::Func(TypeList::of(ps), Box::new(r)) ==> {
            let (t, out) = call_type(st, f, got, es, span);
            &&& t == r
            &&& ps.len() == es.len() ==> out == expect_each(st, ps, got, es)
            &&& ps.len() != es.len() ==> out.diags.len() == st.diags.len() + 1
                && out.diags.last().code == DiagCode::ArgumentCount
        },
        !(st.db.resolve(f) is Func) && !(st.db.resolve(f) is Var) ==> call_type(
            st,
            f,
            got,
            es,
            span,
        ).1.diags.len() == st.diags.len() + 1,
{
    law_lists_are_their_elements(TypeList::Nil, ps);
}

// ---------------------------------------------------------------------------
// Ways out
// ---------------------------------------------------------------------------

/// `break` and `continue` stand in a loop, and only a `loop` is left with a value:
/// everything else is reported. The first `break` says what the loop is left with,
/// and the loops around it are not touched.
pub proof fn law_loops_are_left_from_inside(
    st: Inf,
    given: bool,
    t: Type,
    at_value: Span,
    whole: Span,
)
    ensures
        ({
            let out = note_break(st, given, t, at_value, whole);
            let loops = st.breaks;
            &&& loops.len() == 0 ==> out.diags.len() == st.diags.len() + 1
                && out.diags.last().code == DiagCode::BreakOutsideLoop && note_continue(
                st,
                whole,
            ).diags.len() == st.diags.len() + 1
            &&& loops.len() > 0 ==> note_continue(st, whole) == st
            &&& loops.len() > 0 && given && !loops.last().valued ==> out.diags.len()
                == st.diags.len() + 1 && out.diags.last().code == DiagCode::BreakValueOutsideLoop
                && out.breaks == loops
            &&& loops.len() > 0 && (!given || loops.last().valued) && loops.last().left is None ==> {
                &&& out.diags == st.diags
                &&& out.breaks.len() == loops.len()
                &&& out.breaks.drop_last() == loops.drop_last()
                &&& out.breaks.last().left == Some(t)
                &&& loop_type(out.breaks.last().left) == t
            }
        }),
        loop_type(None) is Never,
{
    let out = note_break(st, given, t, at_value, whole);
    if st.breaks.len() > 0 {
        assert(out.breaks.drop_last() =~= st.breaks.drop_last() || out.breaks == st.breaks);
    }
}

/// `return` stands in a function, and gives a value of its result: from then on
/// the two are of one type.
pub proof fn law_returns_agree_with_the_function(
    st: Inf,
    t: Type,
    r: Type,
    at_value: Span,
    whole: Span,
)
    requires
        well_formed(st.db.solution),
        known(st.db.solution, t),
        known(st.db.solution, r),
    ensures
        st.result is None ==> note_return(st, t, at_value, whole).diags.len() == st.diags.len() + 1,
        st.result == Some(r) && note_return(st, t, at_value, whole).diags.len() == st.diags.len()
            ==> agrees(note_return(st, t, at_value, whole).db, r, t),
{
    lemma_expect_keeps(st, r, t, at_value, r, t);
}

// ---------------------------------------------------------------------------
// Expressions
// ---------------------------------------------------------------------------

/// A literal's type is that of the value it denotes, and nothing is reported.
pub proof fn law_literals_have_the_type_of_their_value(st: Inf, tok: LitToken, l: LitView, span: Span)
    requires
        denoted(tok) == Some(l),
    ensures
        is_of(st.db, infer_literal(st, Some(tok), span).0, Value::Lit(l)),
        infer_literal(st, Some(tok), span).1 == st,
{
}

/// What kind of value each kind of expression has: an interpolated text is a
/// `Text`, a range a `Range`, a list a `Vec`; loops with a condition and walks have
/// none, and neither has an `if` without `else`; what leaves a loop or a function
/// never has one; brackets change nothing.
pub proof fn law_expressions_have_their_kind(st: Inf, e: Expr)
    ensures
        match e.kind {
            ExprKind::Interp(_) => infer_expr(st, e).0 == Type::Scalar(ScalarType::Text),
            ExprKind::Range { .. } => infer_expr(st, e).0 == Type::Collection(
                CollectionCtor::Range,
                TypeList::Nil,
            ),
            ExprKind::List(_) => infer_expr(st, e).0 matches Type::Collection(
                CollectionCtor::Vec,
                TypeList::Cons(_, rest),
            ) && *rest is Nil,
            ExprKind::While { .. } => infer_expr(st, e).0 is Unit,
            ExprKind::For { .. } => infer_expr(st, e).0 is Unit,
            ExprKind::If { else_branch: None, .. } => infer_expr(st, e).0 is Unit,
            ExprKind::Break(_) => infer_expr(st, e).0 is Never,
            ExprKind::Continue => infer_expr(st, e).0 is Never,
            ExprKind::Return(_) => infer_expr(st, e).0 is Never,
            ExprKind::Paren(Some(x)) => infer_expr(st, e).0 == infer_expr(st, *x).0,
            ExprKind::Tuple(es) => es@.len() > 0 ==> infer_expr(st, e).0 == Type::Tuple(
                TypeList::of(infer_list(st, es@).0),
            ),
            _ => true,
        },
{
    match e.kind {
        ExprKind::List(_) => {
            reveal_with_fuel(TypeList::of, 3);
            let (item, _) = fresh(st);
            assert(seq![item].skip(1) =~= Seq::empty());
        },
        ExprKind::For { .. } => {
            assert(infer_kind(st, e) == infer_for(st, e));
        },
        ExprKind::If { .. } => {
            assert(infer_kind(st, e) == infer_if(st, e));
        },
        ExprKind::Paren(Some(x)) => {
            assert(infer_opt(st, Some(x)) == infer_expr(st, *x));
        },
        ExprKind::Tuple(es) => {
            lemma_listed(st, es@);
        },
        _ => {},
    }
}

proof fn lemma_listed(st: Inf, es: Seq<Expr>)
    ensures
        infer_list(st, es).0.len() == es.len(),
    decreases es.len(),
{
    if es.len() > 0 {
        lemma_listed(st, es.drop_last());
    }
}

/// What is inferred for an expression is recorded for it.
pub proof fn law_types_are_recorded(st: Inf, e: Expr)
    ensures
        at(infer_expr(st, e).1.expr_types, e.spec_key()) == Some(infer_expr(st, e).0),
{
}

// ---------------------------------------------------------------------------
// Methods and variants
// ---------------------------------------------------------------------------

/// A method is carried out by the first row of its name that takes as many
/// arguments and is for the receiver; without one there is none.
pub proof fn law_methods_take_their_first_row(
    rows: Seq<MethodRowView>,
    name: Seq<char>,
    count: nat,
    t: Type,
)
    ensures
        match first_row(rows, name, count, t) {
            Some(i) => {
                &&& i < rows.len()
                &&& rows[i as int].name == name
                &&& takes_args(rows[i as int].scheme.body, count)
                &&& row_fits(rows[i as int], name, count, t)
                &&& forall|j: int| 0 <= j < i ==> !row_fits(#[trigger] rows[j], name, count, t)
            },
            None => forall|j: int|
                0 <= j < rows.len() ==> !row_fits(#[trigger] rows[j], name, count, t),
        },
    decreases rows.len(),
{
    if rows.len() > 0 {
        law_methods_take_their_first_row(rows.drop_last(), name, count, t);
        assert forall|j: int| 0 <= j < rows.len() - 1 implies rows.drop_last()[j]
            == #[trigger] rows[j] by {}
    }
}

/// Two known types are made by one constructor exactly where they do not clash;
/// functions have no methods.
pub proof fn law_receivers_are_told_by_their_head(a: Type, b: Type)
    requires
        !(a is Var) && !(a is Func) && !(a is Never),
        !(b is Var) && !(b is Func) && !(b is Never),
    ensures
        same_head(a, b) <==> !clash(a, b),
{
}

/// A variant makes a value of its enum, out of its payload where it has one.
pub proof fn law_variants_make_their_enum(payload: Seq<Type>, ty: Type)
    requires
        ty is Enum,
    ensures
        variant_result(variant_type(payload, ty)) == ty,
        payload.len() == 0 ==> variant_type(payload, ty) == ty,
        payload.len() > 0 ==> variant_type(payload, ty) == Type::Func(
            TypeList::of(payload),
            Box::new(ty),
        ),
{
}

/// A collection is made empty, or, where it has a size, of sizes and what fills it.
pub proof fn law_collections_are_made_of_sizes(x: Type, y: Type)
    ensures
        sized_params(CollectionCtor::Vec, seq![x]) == seq![Type::Scalar(ScalarType::Int), x],
        sized_params(CollectionCtor::Grid, seq![x]) == seq![
            Type::Scalar(ScalarType::Int),
            Type::Scalar(ScalarType::Int),
            x,
        ],
        forall|c: CollectionCtor|
            (#[trigger] sized_params(c, seq![x])).len() == sized_arity(c),
{
}

/// A name that a pattern binds refers, wherever it is used next, to the symbol
/// declared where it is bound, and has the type of what it is bound to; nothing is
/// reported.
pub proof fn law_bound_names_have_the_type_of_the_value(
    st: Inf,
    name: Ident,
    ty: Type,
    used: Ident,
)
    requires
        st.names.len() < u32::MAX,
        used.text@ == name.text@,
        st.db.resolve(ty) matches Type::Enum(d, _) ==> st.db.variant_index(d, name.text@) is None,
    ensures
        ({
            let s1 = bind_name(st, name, ty);
            let (t, s2) = infer_name(s1, used);
            &&& t == ty
            &&& s2.diags == s1.diags
            &&& at(s2.refs, used.range) is Some
            &&& at(s1.decls, name.range) == Some(at(s2.refs, used.range)->0.symbol)
        }),
{
    let s1 = bind_name(st, name, ty);
    let id = SymbolId(st.names.len() as u32);
    assert(in_scope(s1.env, used.text@) == Some(id));
    assert(s1.names[id.0 as int].scheme == Some(monotype(ty)));
    law_a_use_of_one_type_is_that_type(s1, ty, used.range);
}

// ---------------------------------------------------------------------------
// Walks, records and payloads
// ---------------------------------------------------------------------------

/// What a `for` binds is what its collection yields; what yields nothing is
/// reported where it stands.
pub proof fn law_walks_bind_items(st: Inf, t: Type, item: Type, span: Span)
    ensures
        ({
            let out = require(st, Capability::Iterable, t, item, span);
            match item_of(st.db.resolve(t)) {
                Some(x) => out == expect(st, item, x, span),
                None => match st.db.resolve(t) {
                    Type::Var(_) => out.diags == st.diags && out.needs.len() == st.needs.len() + 1,
                    Type::Never => out == st,
                    _ => out.diags.len() == st.diags.len() + 1 && out.diags.last().code
                        == DiagCode::NotIterable,
                },
            }
        }),
{
}

/// A record has a field of a name exactly where it declares one, and the field's
/// type is the declared one, at the record's arguments.
pub proof fn law_fields_have_their_declared_type(
    db: DbView,
    ty: Type,
    d: RecordDefId,
    args: TypeList,
    name: Seq<char>,
)
    requires
        db.resolve(ty) == Type::Record(d, args),
    ensures
        match field_of(db, ty, name) {
            Some(t) => exists|i: nat|
                #[trigger] field_called(db, d, i, name) && t == db.field_type(d, args, i),
            None => forall|i: nat| !#[trigger] field_called(db, d, i, name),
        },
{
    lemma_field_index(db, d, name);
}

/// The parts of a variant pattern stand for the declared payload of the variant
/// that has the name, at the enum's arguments.
pub proof fn law_payloads_are_the_declared_ones(
    db: DbView,
    ty: Type,
    d: EnumDefId,
    args: TypeList,
    i: nat,
    name: Seq<char>,
)
    requires
        db.resolve(ty) == Type::Enum(d, args),
        variant_called(db, d, i, name),
    ensures
        payload_types(db, name, ty) == db.payload_of(d, args, i),
{
    lemma_variant_index(db, d, name);
}

/// A field of a record literal is checked against the field that has its name: a
/// value of another type is reported, and so is a name that no field has, or that
/// was given before.
pub proof fn law_record_values_are_checked(
    st: Inf,
    before: Seq<FieldInit>,
    name: Ident,
    ty: Type,
    got: Type,
    at_value: Span,
)
    ensures
        ({
            let out = check_field(st, before, name, ty, got, at_value);
            if names_field(before, name.text@) {
                out.diags.len() == st.diags.len() + 1 && out.diags.last().code
                    == DiagCode::DuplicateField
            } else {
                match field_of(st.db, ty, name.text@) {
                    Some(want) => out == expect(st, want, got, at_value),
                    None => out.diags.len() == st.diags.len() + 1 && out.diags.last().code
                        == DiagCode::UnknownField,
                }
            }
        }),
{
}

/// A declared field that a record literal does not give is reported, and nothing
/// is where all are given.
pub proof fn law_missing_fields_are_reported(
    st: Inf,
    declared: Seq<Seq<char>>,
    fs: Seq<FieldInit>,
    span: Span,
    i: int,
)
    requires
        0 <= i < declared.len(),
    ensures
        report_missing(st, declared, fs, span).diags.len() >= st.diags.len(),
        !names_field(fs, declared[i]) ==> report_missing(st, declared, fs, span).diags.len()
            > st.diags.len(),
        (forall|j: int| 0 <= j < declared.len() ==> names_field(fs, #[trigger] declared[j]))
            ==> report_missing(st, declared, fs, span) == st,
    decreases declared.len(),
{
    lemma_missing_grows(st, declared.drop_last(), fs, span);
    if i < declared.len() - 1 {
        law_missing_fields_are_reported(st, declared.drop_last(), fs, span, i);
    } else if declared.len() > 1 {
        law_missing_fields_are_reported(st, declared.drop_last(), fs, span, i - 1);
    }
    if forall|j: int| 0 <= j < declared.len() ==> names_field(fs, #[trigger] declared[j]) {
        assert(names_field(fs, declared[declared.len() - 1]));
        assert forall|j: int| 0 <= j < declared.len() - 1 implies names_field(
            fs,
            #[trigger] declared.drop_last()[j],
        ) by {
            assert(names_field(fs, declared[j]));
        }
    }
}

proof fn lemma_missing_grows(st: Inf, declared: Seq<Seq<char>>, fs: Seq<FieldInit>, span: Span)
    ensures
        report_missing(st, declared, fs, span).diags.len() >= st.diags.len(),
    decreases declared.len(),
{
    if declared.len() > 0 {
        lemma_missing_grows(st, declared.drop_last(), fs, span);
    }
}

/// No two variables of one type are shown under one name.
pub proof fn law_variables_are_told_apart(i: nat, j: nat)
    ensures
        binder_name(i) == binder_name(j) <==> i == j,
{
    reveal_strlit("TUVWXYZ");
    reveal_strlit("T");
    if binder_name(i) == binder_name(j) && i != j {
        let a = binder_name(i);
        let b = binder_name(j);
        lemma_decimal_nonempty(i);
        lemma_decimal_nonempty(j);
        if i < 7 && j < 7 {
            assert(a[0] == b[0]);
        } else if i >= 7 && j >= 7 {
            assert(a.skip(1) =~= decimal_digits(i));
            assert(b.skip(1) =~= decimal_digits(j));
            lemma_decimal_injective(i, j);
        } else {
            assert(a.len() != b.len());
        }
    }
}

/// A block has the value of its last statement where that is an expression, and
/// none where it ends in anything else.
pub proof fn law_blocks_have_their_last_value(st: Inf, b: Block)
    ensures
        ({
            let t = infer_block(st, b).0;
            let stmts = b.stmts@;
            if stmts.len() > 0 && stmts.last().kind is Expr {
                stmts.last().kind matches StmtKind::Expr(Some(e)) ==> t == infer_expr(
                    infer_stmts(enter(st), stmts.drop_last()).1,
                    *e,
                ).0
            } else {
                t is Unit
            }
        }),
{
    let stmts = b.stmts@;
    if stmts.len() > 0 {
        let s1 = infer_stmts(enter(st), stmts.drop_last()).1;
        assert(infer_block(st, b).0 == infer_stmt(s1, stmts.last()).0);
        if let StmtKind::Expr(Some(e)) = stmts.last().kind {
            assert(infer_or_unit(s1, Some(e)) == infer_expr(s1, *e));
        }
    }
}

/// A closure is a function that takes one argument for each of its parameters.
pub proof fn law_closures_are_functions(st: Inf, e: Expr, want: Option<Type>)
    ensures
        e.kind matches ExprKind::Closure { params, .. } ==> {
            &&& infer_closure(st, e, want).0 matches Type::Func(ps, _)
            &&& ps.seq().len() == params@.len()
        },
{
    if let ExprKind::Closure { params, .. } = e.kind {
        let ts = param_types(st, params@).0;
        lemma_param_types(st, params@);
        law_lists_are_their_elements(TypeList::Nil, ts);
    }
}

proof fn lemma_param_types(st: Inf, ps: Seq<Param>)
    ensures
        param_types(st, ps).0.len() == ps.len(),
    decreases ps.len(),
{
    if ps.len() > 0 {
        lemma_param_types(st, ps.drop_last());
    }
}

} // verus!
