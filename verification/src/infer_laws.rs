//! Every expression of a program is given a type.
use vstd::prelude::*;

use crate::analysis::{MethodEntry, MethodRowView};
use crate::ast::{
    AssignToken, Block, Expr, ExprKind, FieldInit, FieldPattern, FnItem, Ident, InterpPart, LitToken,
    MatchArm, Param, ParserBody, Pattern, PatternKind, PlaceAssignOp, Stmt, StmtKind, TopLevel,
    BinToken, TypeExpr, TypeExprKind, UnaryToken,
};
use crate::descend::{
    arm_descendants, boxed_descendants, expr_descendants, field_descendants, list_descendants,
    one_stmt_descendants, opt_block_descendants, part_descendants, stmt_descendants, Visit,
};
use crate::infer_spec::{
    Asked, DeferredView, Inf, Pending, StoreOp, annotated, answer, answer_all, answer_field,
    answer_method, answer_subscript, assign, bin_type, bind_field, bind_fields, bind_item, bind_name,
    bind_opt, bind_param, bind_params, bind_pattern, bind_patterns, bind_var, block_span, bool_type,
    both_at, call_type, check_field, check_field_pattern, check_outer, construct, ctor_args,
    ctor_named, declare, declared_type, defer, enter, enter_fn, enter_loop, enter_top, expect, expect_all,
    expect_each, expect_head, field_get, field_of, first_row, fresh, fresh_many, generalize,
    head_type, in_scope, index_type, infer_arg, infer_args, infer_arm, infer_arms, infer_at,
    infer_block, infer_call, infer_closure, infer_expr, infer_field, infer_fields, infer_fn, infer_for,
    infer_if, infer_items, infer_kind, infer_list, infer_literal, infer_loose, infer_loop, infer_method,
    infer_name, infer_opt, infer_opt_block, infer_or_unit, infer_parser, infer_parts,
    infer_record, infer_stmt, infer_stmts, infer_top, infer_values, infer_var, int_type, join, leave,
    leave_fn, leave_loop, mismatch, misplaced, named_type, no_element, no_field, no_method,
    no_such_method, not_a_struct, not_indexable, note_break, note_call, note_continue,
    note_method, note_return, note_subscript, param_types, path_report, payload_types, refer,
    refuse, report, report_missing, require, resettle, resettle_times, set_reassigned,
    set_scheme, settle, settle_all, settle_needs, settle_variant, span_of, store, store_place,
    text_type, tuple_get, tuple_type, type_at, type_of, types_of, unary_type, undefined,
    unknown_name, unknown_type, use_row, use_scheme, use_symbol, wrong_count,
    wrong_type_arity,
};
use crate::source::{DiagCode, Span};
use crate::parser_copy::IndexView;
use crate::scope::ScopeId;
use crate::symbol::{SymbolId, SymbolKind};
use crate::tables::at;
use crate::typedb::{Capability, SchemeView};
use crate::types::{CollectionCtor, Type};

verus! {

// ---------------------------------------------------------------------------
// Steps that record no type of an expression
// ---------------------------------------------------------------------------

broadcast proof fn same_report(st: Inf, span: Span, code: DiagCode, message: Seq<char>)
    ensures
        (#[trigger] report(st, span, code, message)).expr_types == st.expr_types,
        report(st, span, code, message).parser_exprs == st.parser_exprs,
{
}

broadcast proof fn same_fresh(st: Inf)
    ensures
        (#[trigger] fresh(st)).1.expr_types == st.expr_types,
        fresh(st).1.parser_exprs == st.parser_exprs,
{
    broadcast use same_report;

}

broadcast proof fn same_mismatch(st: Inf, want: Type, got: Type, span: Span)
    ensures
        (#[trigger] mismatch(st, want, got, span)).expr_types == st.expr_types,
        mismatch(st, want, got, span).parser_exprs == st.parser_exprs,
{
    broadcast use {same_report, same_fresh};

}

broadcast proof fn same_expect(st: Inf, want: Type, got: Type, span: Span)
    ensures
        (#[trigger] expect(st, want, got, span)).expr_types == st.expr_types,
        expect(st, want, got, span).parser_exprs == st.parser_exprs,
{
    broadcast use {same_report, same_fresh, same_mismatch};

}

broadcast group group_same_1 {
    same_report,
    same_fresh,
    same_mismatch,
    same_expect,
}

broadcast proof fn same_join(st: Inf, a: Type, b: Type, span: Span)
    ensures
        (#[trigger] join(st, a, b, span)).1.expr_types == st.expr_types,
        join(st, a, b, span).1.parser_exprs == st.parser_exprs,
{
    broadcast use group_same_1;

}

broadcast proof fn same_declare(st: Inf, name: Seq<char>, range: Span, kind: SymbolKind, scheme: Option<SchemeView>)
    ensures
        (#[trigger] declare(st, name, range, kind, scheme)).expr_types == st.expr_types,
        declare(st, name, range, kind, scheme).parser_exprs == st.parser_exprs,
{
    broadcast use {group_same_1, same_join};

}

broadcast proof fn same_set_scheme(st: Inf, id: SymbolId, scheme: SchemeView)
    ensures
        (#[trigger] set_scheme(st, id, scheme)).expr_types == st.expr_types,
        set_scheme(st, id, scheme).parser_exprs == st.parser_exprs,
{
    broadcast use {group_same_1, same_join, same_declare};

}

broadcast proof fn same_set_reassigned(st: Inf, id: SymbolId)
    ensures
        (#[trigger] set_reassigned(st, id)).expr_types == st.expr_types,
        set_reassigned(st, id).parser_exprs == st.parser_exprs,
{
    broadcast use {group_same_1, same_join, same_declare, same_set_scheme};

}

broadcast group group_same_2 {
    group_same_1,
    same_join,
    same_declare,
    same_set_scheme,
    same_set_reassigned,
}

broadcast proof fn same_check_outer(st: Inf, range: Span, symbol: SymbolId)
    ensures
        (#[trigger] check_outer(st, range, symbol)).expr_types == st.expr_types,
        check_outer(st, range, symbol).parser_exprs == st.parser_exprs,
{
    broadcast use group_same_2;

}

broadcast proof fn same_refer(st: Inf, range: Span, symbol: SymbolId, ty: Type)
    ensures
        (#[trigger] refer(st, range, symbol, ty)).expr_types == st.expr_types,
        refer(st, range, symbol, ty).parser_exprs == st.parser_exprs,
{
    broadcast use {group_same_2, same_check_outer};

}

broadcast proof fn same_unknown_name(st: Inf, name: Ident)
    ensures
        (#[trigger] unknown_name(st, name)).expr_types == st.expr_types,
        unknown_name(st, name).parser_exprs == st.parser_exprs,
{
    broadcast use {group_same_2, same_check_outer, same_refer};

}

broadcast proof fn same_refuse(st: Inf, what: Capability, t: Type, span: Span)
    ensures
        (#[trigger] refuse(st, what, t, span)).expr_types == st.expr_types,
        refuse(st, what, t, span).parser_exprs == st.parser_exprs,
{
    broadcast use {group_same_2, same_check_outer, same_refer, same_unknown_name};

}

broadcast group group_same_3 {
    group_same_2,
    same_check_outer,
    same_refer,
    same_unknown_name,
    same_refuse,
}

broadcast proof fn same_settle(st: Inf, p: Pending)
    ensures
        (#[trigger] settle(st, p)).expr_types == st.expr_types,
        settle(st, p).parser_exprs == st.parser_exprs,
{
    broadcast use group_same_3;

}

broadcast proof fn same_settle_all(st: Inf, ps: Seq<Pending>)
    ensures
        (#[trigger] settle_all(st, ps)).expr_types == st.expr_types,
        settle_all(st, ps).parser_exprs == st.parser_exprs,
    decreases ps.len(),
{
    broadcast use {group_same_3, same_settle};

    if ps.len() > 0 {
        same_settle_all(st, ps.drop_last());
    }
}

broadcast proof fn same_settle_needs(st: Inf)
    ensures
        (#[trigger] settle_needs(st)).expr_types == st.expr_types,
        settle_needs(st).parser_exprs == st.parser_exprs,
{
    broadcast use {group_same_3, same_settle, same_settle_all};

}

broadcast proof fn same_expect_all(st: Inf, want: Seq<Type>, got: Seq<Type>, n: nat, span: Span)
    ensures
        (#[trigger] expect_all(st, want, got, n, span)).expr_types == st.expr_types,
        expect_all(st, want, got, n, span).parser_exprs == st.parser_exprs,
    decreases n,
{
    broadcast use {group_same_3, same_settle, same_settle_all, same_settle_needs};

    if n > 0 {
        same_expect_all(st, want, got, (n - 1) as nat, span);
    }
}

broadcast group group_same_4 {
    group_same_3,
    same_settle,
    same_settle_all,
    same_settle_needs,
    same_expect_all,
}

broadcast proof fn same_fresh_many(st: Inf, n: nat)
    ensures
        (#[trigger] fresh_many(st, n)).1.expr_types == st.expr_types,
        fresh_many(st, n).1.parser_exprs == st.parser_exprs,
    decreases n,
{
    broadcast use group_same_4;

    if n > 0 {
        same_fresh_many(st, (n - 1) as nat);
    }
}

broadcast proof fn same_use_scheme(st: Inf, s: SchemeView, span: Span)
    ensures
        (#[trigger] use_scheme(st, s, span)).1.expr_types == st.expr_types,
        use_scheme(st, s, span).1.parser_exprs == st.parser_exprs,
{
    broadcast use {group_same_4, same_fresh_many};

}

broadcast proof fn same_use_row(st: Inf, row: MethodRowView, t: Type, span: Span)
    ensures
        (#[trigger] use_row(st, row, t, span)).2.expr_types == st.expr_types,
        use_row(st, row, t, span).2.parser_exprs == st.parser_exprs,
{
    broadcast use {group_same_4, same_fresh_many, same_use_scheme};

}

broadcast proof fn same_note_method(st: Inf, span: Span, entry: MethodEntry, receiver: Type, result: Type)
    ensures
        (#[trigger] note_method(st, span, entry, receiver, result)).expr_types == st.expr_types,
        note_method(st, span, entry, receiver, result).parser_exprs == st.parser_exprs,
{
    broadcast use {group_same_4, same_fresh_many, same_use_scheme, same_use_row};

}

broadcast group group_same_5 {
    group_same_4,
    same_fresh_many,
    same_use_scheme,
    same_use_row,
    same_note_method,
}

broadcast proof fn same_no_method(st: Inf, name: Seq<char>, span: Span, t: Type, count: nat)
    ensures
        (#[trigger] no_method(st, name, span, t, count)).expr_types == st.expr_types,
        no_method(st, name, span, t, count).parser_exprs == st.parser_exprs,
{
    broadcast use group_same_5;

}

broadcast proof fn same_no_field(st: Inf, t: Type, name: Seq<char>, span: Span)
    ensures
        (#[trigger] no_field(st, t, name, span)).expr_types == st.expr_types,
        no_field(st, t, name, span).parser_exprs == st.parser_exprs,
{
    broadcast use {group_same_5, same_no_method};

}

broadcast proof fn same_note_subscript(st: Inf, span: Span, name: Seq<char>, count: nat, receiver: Type, result: Type)
    ensures
        (#[trigger] note_subscript(st, span, name, count, receiver, result)).expr_types == st.expr_types,
        note_subscript(st, span, name, count, receiver, result).parser_exprs == st.parser_exprs,
{
    broadcast use {group_same_5, same_no_method, same_no_field};

}

broadcast proof fn same_answer_method(st: Inf, d: DeferredView, t: Type)
    ensures
        (#[trigger] answer_method(st, d, t)).expr_types == st.expr_types,
        answer_method(st, d, t).parser_exprs == st.parser_exprs,
{
    broadcast use {group_same_5, same_no_method, same_no_field, same_note_subscript};

}

broadcast group group_same_6 {
    group_same_5,
    same_no_method,
    same_no_field,
    same_note_subscript,
    same_answer_method,
}

broadcast proof fn same_answer_field(st: Inf, d: DeferredView, t: Type)
    ensures
        (#[trigger] answer_field(st, d, t)).expr_types == st.expr_types,
        answer_field(st, d, t).parser_exprs == st.parser_exprs,
{
    broadcast use group_same_6;

}

broadcast proof fn same_answer_subscript(st: Inf, d: DeferredView, t: Type)
    ensures
        (#[trigger] answer_subscript(st, d, t)).expr_types == st.expr_types,
        answer_subscript(st, d, t).parser_exprs == st.parser_exprs,
{
    broadcast use {group_same_6, same_answer_field};

}

broadcast proof fn same_answer(st: Inf, d: DeferredView)
    ensures
        (#[trigger] answer(st, d)).expr_types == st.expr_types,
        answer(st, d).parser_exprs == st.parser_exprs,
{
    broadcast use {group_same_6, same_answer_field, same_answer_subscript};

}

broadcast proof fn same_answer_all(st: Inf, ds: Seq<DeferredView>)
    ensures
        (#[trigger] answer_all(st, ds)).expr_types == st.expr_types,
        answer_all(st, ds).parser_exprs == st.parser_exprs,
    decreases ds.len(),
{
    broadcast use {group_same_6, same_answer_field, same_answer_subscript, same_answer};

    if ds.len() > 0 {
        same_answer_all(st, ds.drop_last());
    }
}

broadcast group group_same_7 {
    group_same_6,
    same_answer_field,
    same_answer_subscript,
    same_answer,
    same_answer_all,
}

broadcast proof fn same_resettle(st: Inf)
    ensures
        (#[trigger] resettle(st)).expr_types == st.expr_types,
        resettle(st).parser_exprs == st.parser_exprs,
{
    broadcast use group_same_7;

}

pub broadcast proof fn same_resettle_times(st: Inf, n: nat)
    ensures
        (#[trigger] resettle_times(st, n)).expr_types == st.expr_types,
        resettle_times(st, n).parser_exprs == st.parser_exprs,
    decreases n,
{
    broadcast use {group_same_7, same_resettle};

    if n > 0 {
        same_resettle_times(st, (n - 1) as nat);
    }
}

broadcast proof fn same_defer(st: Inf, asked: Asked, name: Seq<char>, at: Span, receiver: Type, args: Seq<Type>)
    ensures
        (#[trigger] defer(st, asked, name, at, receiver, args)).1.expr_types == st.expr_types,
        defer(st, asked, name, at, receiver, args).1.parser_exprs == st.parser_exprs,
{
    broadcast use {group_same_7, same_resettle, same_resettle_times};

}

broadcast proof fn same_use_symbol(st: Inf, id: SymbolId, span: Span)
    ensures
        (#[trigger] use_symbol(st, id, span)).1.expr_types == st.expr_types,
        use_symbol(st, id, span).1.parser_exprs == st.parser_exprs,
{
    broadcast use {group_same_7, same_resettle, same_resettle_times, same_defer};

}

broadcast group group_same_8 {
    group_same_7,
    same_resettle,
    same_resettle_times,
    same_defer,
    same_use_symbol,
}

broadcast proof fn same_generalize(st: Inf, id: SymbolId, ty: Type, inside: Span)
    ensures
        (#[trigger] generalize(st, id, ty, inside)).expr_types == st.expr_types,
        generalize(st, id, ty, inside).parser_exprs == st.parser_exprs,
{
    broadcast use group_same_8;

}

broadcast proof fn same_require(st: Inf, what: Capability, ty: Type, other: Type, span: Span)
    ensures
        (#[trigger] require(st, what, ty, other, span)).expr_types == st.expr_types,
        require(st, what, ty, other, span).parser_exprs == st.parser_exprs,
{
    broadcast use {group_same_8, same_generalize};

}

broadcast proof fn same_wrong_type_arity(st: Inf, name: Ident, range: Span, takes: nat, given: nat)
    ensures
        (#[trigger] wrong_type_arity(st, name, range, takes, given)).1.expr_types == st.expr_types,
        wrong_type_arity(st, name, range, takes, given).1.parser_exprs == st.parser_exprs,
{
    broadcast use {group_same_8, same_generalize, same_require};

}

broadcast proof fn same_unknown_type(st: Inf, name: Ident)
    ensures
        (#[trigger] unknown_type(st, name)).expr_types == st.expr_types,
        unknown_type(st, name).parser_exprs == st.parser_exprs,
{
    broadcast use {group_same_8, same_generalize, same_require, same_wrong_type_arity};

}

broadcast group group_same_9 {
    group_same_8,
    same_generalize,
    same_require,
    same_wrong_type_arity,
    same_unknown_type,
}

broadcast proof fn same_named_type(st: Inf, name: Ident, range: Span, args: Seq<Type>)
    ensures
        (#[trigger] named_type(st, name, range, args)).1.expr_types == st.expr_types,
        named_type(st, name, range, args).1.parser_exprs == st.parser_exprs,
{
    broadcast use group_same_9;

}

broadcast proof fn same_type_of(st: Inf, t: TypeExpr)
    ensures
        (#[trigger] type_of(st, t)).1.expr_types == st.expr_types,
        type_of(st, t).1.parser_exprs == st.parser_exprs,
    decreases t, 1nat,
{
    broadcast use group_same_9;

    match t.kind {
        TypeExprKind::Name(_, args) => same_types_of(st, args@),
        TypeExprKind::Tuple(parts) => same_types_of(st, parts@),
        TypeExprKind::Func(params, result) => {
            same_types_of(st, params@);
            if let Some(r) = result {
                same_type_of(types_of(st, params@).1, *r);
            }
        },
    }
}

broadcast proof fn same_types_of(st: Inf, ts: Seq<TypeExpr>)
    ensures
        (#[trigger] types_of(st, ts)).1.expr_types == st.expr_types,
        types_of(st, ts).1.parser_exprs == st.parser_exprs,
    decreases ts, 0nat,
{
    if ts.len() > 0 {
        same_types_of(st, ts.drop_last());
        same_type_of(types_of(st, ts.drop_last()).1, ts.last());
    }
}

broadcast group group_same_10 {
    group_same_9,
    same_named_type,
    same_type_of,
    same_types_of,
}

broadcast proof fn same_annotated(st: Inf, t: Option<TypeExpr>)
    ensures
        (#[trigger] annotated(st, t)).1.expr_types == st.expr_types,
        annotated(st, t).1.parser_exprs == st.parser_exprs,
{
    broadcast use group_same_10;

}

broadcast proof fn same_settle_variant(st: Inf, name: Ident, ty: Type)
    ensures
        (#[trigger] settle_variant(st, name, ty)).expr_types == st.expr_types,
        settle_variant(st, name, ty).parser_exprs == st.parser_exprs,
{
    broadcast use {group_same_10, same_annotated};

}

broadcast proof fn same_bind_name(st: Inf, name: Ident, ty: Type)
    ensures
        (#[trigger] bind_name(st, name, ty)).expr_types == st.expr_types,
        bind_name(st, name, ty).parser_exprs == st.parser_exprs,
{
    broadcast use {group_same_10, same_annotated, same_settle_variant};

}

broadcast proof fn same_expect_head(st: Inf, head: Option<Ident>, ty: Type, range: Span)
    ensures
        (#[trigger] expect_head(st, head, ty, range)).expr_types == st.expr_types,
        expect_head(st, head, ty, range).parser_exprs == st.parser_exprs,
{
    broadcast use {group_same_10, same_annotated, same_settle_variant, same_bind_name};

}

broadcast group group_same_11 {
    group_same_10,
    same_annotated,
    same_settle_variant,
    same_bind_name,
    same_expect_head,
}

broadcast proof fn same_check_field_pattern(st: Inf, before: Seq<FieldPattern>, name: Ident, ty: Type)
    ensures
        (#[trigger] check_field_pattern(st, before, name, ty)).expr_types == st.expr_types,
        check_field_pattern(st, before, name, ty).parser_exprs == st.parser_exprs,
{
    broadcast use group_same_11;

}

broadcast proof fn same_type_at(st: Inf, ts: Seq<Type>, i: int)
    ensures
        (#[trigger] type_at(st, ts, i)).1.expr_types == st.expr_types,
        type_at(st, ts, i).1.parser_exprs == st.parser_exprs,
{
    broadcast use {group_same_11, same_check_field_pattern};

}

broadcast proof fn same_bind_pattern(st: Inf, p: Pattern, ty: Type)
    ensures
        (#[trigger] bind_pattern(st, p, ty)).expr_types == st.expr_types,
        bind_pattern(st, p, ty).parser_exprs == st.parser_exprs,
    decreases p, 1nat,
{
    broadcast use group_same_11;

    match p.kind {
        PatternKind::Variant(name, subs) => {
            let s1 = settle_variant(st, name, ty);
            same_bind_patterns(s1, subs@, payload_types(s1.db, name.text@, ty));
        },
        PatternKind::Tuple(subs) => {
            let (ts, s1) = fresh_many(st, subs@.len());
            let s2 = expect(s1, ty, tuple_type(ts), p.range);
            same_bind_patterns(s2, subs@, ts);
        },
        PatternKind::Record(head, fields) => {
            same_bind_fields(expect_head(st, head, ty, p.range), fields@, ty);
        },
        _ => {},
    }
}

broadcast proof fn same_bind_patterns(st: Inf, ps: Seq<Pattern>, ts: Seq<Type>)
    ensures
        (#[trigger] bind_patterns(st, ps, ts)).expr_types == st.expr_types,
        bind_patterns(st, ps, ts).parser_exprs == st.parser_exprs,
    decreases ps, 0nat,
{
    broadcast use group_same_11;

    if ps.len() > 0 {
        same_bind_patterns(st, ps.drop_last(), ts);
        let s1 = bind_patterns(st, ps.drop_last(), ts);
        let (t, s2) = type_at(s1, ts, ps.len() - 1);
        same_bind_pattern(s2, ps.last(), t);
    }
}

broadcast proof fn same_bind_fields(st: Inf, fs: Seq<FieldPattern>, ty: Type)
    ensures
        (#[trigger] bind_fields(st, fs, ty)).expr_types == st.expr_types,
        bind_fields(st, fs, ty).parser_exprs == st.parser_exprs,
    decreases fs, 0nat,
{
    broadcast use group_same_11;

    if fs.len() > 0 {
        same_bind_fields(st, fs.drop_last(), ty);
        let s1 = bind_fields(st, fs.drop_last(), ty);
        let s2 = match fs.last().name {
            Some(n) => check_field_pattern(s1, fs.drop_last(), n, ty),
            None => s1,
        };
        same_bind_field(s2, fs.last(), ty);
    }
}

broadcast proof fn same_bind_field(st: Inf, f: FieldPattern, ty: Type)
    ensures
        (#[trigger] bind_field(st, f, ty)).expr_types == st.expr_types,
        bind_field(st, f, ty).parser_exprs == st.parser_exprs,
    decreases f, 2nat,
{
    broadcast use group_same_11;

    if let Some(p) = f.pattern {
        let known = match f.name {
            Some(n) => field_of(st.db, ty, n.text@),
            None => None,
        };
        let (t, s1) = match known {
            Some(t) => (t, st),
            None => fresh(st),
        };
        same_bind_pattern(s1, p, t);
    }
}

broadcast group group_same_12 {
    group_same_11,
    same_check_field_pattern,
    same_type_at,
    same_bind_pattern,
    same_bind_patterns,
    same_bind_fields,
    same_bind_field,
}

broadcast proof fn same_both_at(st: Inf, t: Type, l: Type, r: Type, at_l: Span, at_r: Span)
    ensures
        (#[trigger] both_at(st, t, l, r, at_l, at_r)).expr_types == st.expr_types,
        both_at(st, t, l, r, at_l, at_r).parser_exprs == st.parser_exprs,
{
    broadcast use group_same_12;

}

broadcast proof fn same_undefined(st: Inf, t: Type, span: Span)
    ensures
        (#[trigger] undefined(st, t, span)).expr_types == st.expr_types,
        undefined(st, t, span).parser_exprs == st.parser_exprs,
{
    broadcast use {group_same_12, same_both_at};

}

broadcast proof fn same_bin_type(st: Inf, op: Option<BinToken>, l: Type, r: Type, at_l: Span, at_r: Span, whole: Span)
    ensures
        (#[trigger] bin_type(st, op, l, r, at_l, at_r, whole)).1.expr_types == st.expr_types,
        bin_type(st, op, l, r, at_l, at_r, whole).1.parser_exprs == st.parser_exprs,
{
    broadcast use {group_same_12, same_both_at, same_undefined};

}

broadcast proof fn same_unary_type(st: Inf, op: Option<UnaryToken>, t: Type, span: Span)
    ensures
        (#[trigger] unary_type(st, op, t, span)).1.expr_types == st.expr_types,
        unary_type(st, op, t, span).1.parser_exprs == st.parser_exprs,
{
    broadcast use {group_same_12, same_both_at, same_undefined, same_bin_type};

}

broadcast group group_same_13 {
    group_same_12,
    same_both_at,
    same_undefined,
    same_bin_type,
    same_unary_type,
}

broadcast proof fn same_store(st: Inf, how: StoreOp, target: Type, value: Type, at_value: Span, whole: Span)
    ensures
        (#[trigger] store(st, how, target, value, at_value, whole)).expr_types == st.expr_types,
        store(st, how, target, value, at_value, whole).parser_exprs == st.parser_exprs,
{
    broadcast use group_same_13;

}

broadcast proof fn same_expect_each(st: Inf, want: Seq<Type>, got: Seq<Type>, es: Seq<Expr>)
    ensures
        (#[trigger] expect_each(st, want, got, es)).expr_types == st.expr_types,
        expect_each(st, want, got, es).parser_exprs == st.parser_exprs,
    decreases es.len(),
{
    broadcast use {group_same_13, same_store};

    if es.len() > 0 {
        same_expect_each(st, want.drop_last(), got.drop_last(), es.drop_last());
    }
}

broadcast proof fn same_not_indexable(st: Inf, t: Type, span: Span)
    ensures
        (#[trigger] not_indexable(st, t, span)).1.expr_types == st.expr_types,
        not_indexable(st, t, span).1.parser_exprs == st.parser_exprs,
{
    broadcast use {group_same_13, same_store, same_expect_each};

}

broadcast proof fn same_index_type(st: Inf, recv: Type, is: Seq<Type>, es: Seq<Expr>, span: Span)
    ensures
        (#[trigger] index_type(st, recv, is, es, span)).1.expr_types == st.expr_types,
        index_type(st, recv, is, es, span).1.parser_exprs == st.parser_exprs,
{
    broadcast use {group_same_13, same_store, same_expect_each, same_not_indexable};

}

broadcast group group_same_14 {
    group_same_13,
    same_store,
    same_expect_each,
    same_not_indexable,
    same_index_type,
}

broadcast proof fn same_field_get(st: Inf, recv: Type, name: Option<Ident>)
    ensures
        (#[trigger] field_get(st, recv, name)).1.expr_types == st.expr_types,
        field_get(st, recv, name).1.parser_exprs == st.parser_exprs,
{
    broadcast use group_same_14;

}

broadcast proof fn same_no_element(st: Inf, t: Type, span: Span)
    ensures
        (#[trigger] no_element(st, t, span)).1.expr_types == st.expr_types,
        no_element(st, t, span).1.parser_exprs == st.parser_exprs,
{
    broadcast use {group_same_14, same_field_get};

}

broadcast proof fn same_tuple_get(st: Inf, recv: Type, index: Option<u64>, span: Span)
    ensures
        (#[trigger] tuple_get(st, recv, index, span)).1.expr_types == st.expr_types,
        tuple_get(st, recv, index, span).1.parser_exprs == st.parser_exprs,
{
    broadcast use {group_same_14, same_field_get, same_no_element};

}

broadcast proof fn same_path_report(st: Inf, name: Ident, id: SymbolId, t: Type)
    ensures
        (#[trigger] path_report(st, name, id, t)).expr_types == st.expr_types,
        path_report(st, name, id, t).parser_exprs == st.parser_exprs,
{
    broadcast use {group_same_14, same_field_get, same_no_element, same_tuple_get};

}

broadcast group group_same_15 {
    group_same_14,
    same_field_get,
    same_no_element,
    same_tuple_get,
    same_path_report,
}

broadcast proof fn same_infer_name(st: Inf, name: Ident)
    ensures
        (#[trigger] infer_name(st, name)).1.expr_types == st.expr_types,
        infer_name(st, name).1.parser_exprs == st.parser_exprs,
{
    broadcast use group_same_15;

}

broadcast proof fn same_wrong_count(st: Inf, takes: nat, given: nat, span: Span)
    ensures
        (#[trigger] wrong_count(st, takes, given, span)).expr_types == st.expr_types,
        wrong_count(st, takes, given, span).parser_exprs == st.parser_exprs,
{
    broadcast use {group_same_15, same_infer_name};

}

broadcast proof fn same_call_type(st: Inf, f: Type, got: Seq<Type>, es: Seq<Expr>, span: Span)
    ensures
        (#[trigger] call_type(st, f, got, es, span)).1.expr_types == st.expr_types,
        call_type(st, f, got, es, span).1.parser_exprs == st.parser_exprs,
{
    broadcast use {group_same_15, same_infer_name, same_wrong_count};

}

broadcast proof fn same_note_call(st: Inf, name: Ident, callee: SymbolId, got: Seq<Type>, result: Type)
    ensures
        (#[trigger] note_call(st, name, callee, got, result)).expr_types == st.expr_types,
        note_call(st, name, callee, got, result).parser_exprs == st.parser_exprs,
{
    broadcast use {group_same_15, same_infer_name, same_wrong_count, same_call_type};

}

broadcast group group_same_16 {
    group_same_15,
    same_infer_name,
    same_wrong_count,
    same_call_type,
    same_note_call,
}

broadcast proof fn same_no_such_method(st: Inf, name: Ident, count: nat)
    ensures
        (#[trigger] no_such_method(st, name, count)).expr_types == st.expr_types,
        no_such_method(st, name, count).parser_exprs == st.parser_exprs,
{
    broadcast use group_same_16;

}

broadcast proof fn same_ctor_args(st: Inf, c: CollectionCtor, name: Ident, ts: Seq<Type>)
    ensures
        (#[trigger] ctor_args(st, c, name, ts)).1.expr_types == st.expr_types,
        ctor_args(st, c, name, ts).1.parser_exprs == st.parser_exprs,
{
    broadcast use {group_same_16, same_no_such_method};

}

broadcast proof fn same_construct(st: Inf, c: CollectionCtor, items: Seq<Type>, got: Seq<Type>, es: Seq<Expr>, span: Span)
    ensures
        (#[trigger] construct(st, c, items, got, es, span)).1.expr_types == st.expr_types,
        construct(st, c, items, got, es, span).1.parser_exprs == st.parser_exprs,
{
    broadcast use {group_same_16, same_no_such_method, same_ctor_args};

}

broadcast proof fn same_leave(st: Inf, n: nat, scope: ScopeId)
    ensures
        (#[trigger] leave(st, n, scope)).expr_types == st.expr_types,
        leave(st, n, scope).parser_exprs == st.parser_exprs,
{
    broadcast use {group_same_16, same_no_such_method, same_ctor_args, same_construct};

}

broadcast group group_same_17 {
    group_same_16,
    same_no_such_method,
    same_ctor_args,
    same_construct,
    same_leave,
}

broadcast proof fn same_enter_loop(st: Inf, valued: bool)
    ensures
        (#[trigger] enter_loop(st, valued)).expr_types == st.expr_types,
        enter_loop(st, valued).parser_exprs == st.parser_exprs,
{
    broadcast use group_same_17;

}

broadcast proof fn same_leave_loop(st: Inf)
    ensures
        (#[trigger] leave_loop(st)).1.expr_types == st.expr_types,
        leave_loop(st).1.parser_exprs == st.parser_exprs,
{
    broadcast use {group_same_17, same_enter_loop};

}

broadcast proof fn same_misplaced(st: Inf, code: DiagCode, what: Seq<char>, span: Span)
    ensures
        (#[trigger] misplaced(st, code, what, span)).expr_types == st.expr_types,
        misplaced(st, code, what, span).parser_exprs == st.parser_exprs,
{
    broadcast use {group_same_17, same_enter_loop, same_leave_loop};

}

broadcast proof fn same_note_break(st: Inf, given: bool, t: Type, at_value: Span, whole: Span)
    ensures
        (#[trigger] note_break(st, given, t, at_value, whole)).expr_types == st.expr_types,
        note_break(st, given, t, at_value, whole).parser_exprs == st.parser_exprs,
{
    broadcast use {group_same_17, same_enter_loop, same_leave_loop, same_misplaced};

}

broadcast group group_same_18 {
    group_same_17,
    same_enter_loop,
    same_leave_loop,
    same_misplaced,
    same_note_break,
}

broadcast proof fn same_note_continue(st: Inf, whole: Span)
    ensures
        (#[trigger] note_continue(st, whole)).expr_types == st.expr_types,
        note_continue(st, whole).parser_exprs == st.parser_exprs,
{
    broadcast use group_same_18;

}

broadcast proof fn same_note_return(st: Inf, t: Type, at_value: Span, whole: Span)
    ensures
        (#[trigger] note_return(st, t, at_value, whole)).expr_types == st.expr_types,
        note_return(st, t, at_value, whole).parser_exprs == st.parser_exprs,
{
    broadcast use {group_same_18, same_note_continue};

}

broadcast proof fn same_enter_fn(st: Inf, r: Type)
    ensures
        (#[trigger] enter_fn(st, r)).expr_types == st.expr_types,
        enter_fn(st, r).parser_exprs == st.parser_exprs,
{
    broadcast use {group_same_18, same_note_continue, same_note_return};

}

broadcast proof fn same_leave_fn(st: Inf, outer: Inf)
    ensures
        (#[trigger] leave_fn(st, outer)).expr_types == st.expr_types,
        leave_fn(st, outer).parser_exprs == st.parser_exprs,
{
    broadcast use {group_same_18, same_note_continue, same_note_return, same_enter_fn};

}

broadcast group group_same_19 {
    group_same_18,
    same_note_continue,
    same_note_return,
    same_enter_fn,
    same_leave_fn,
}

broadcast proof fn same_check_field(st: Inf, before: Seq<FieldInit>, name: Ident, ty: Type, got: Type, at_value: Span)
    ensures
        (#[trigger] check_field(st, before, name, ty, got, at_value)).expr_types == st.expr_types,
        check_field(st, before, name, ty, got, at_value).parser_exprs == st.parser_exprs,
{
    broadcast use group_same_19;

}

broadcast proof fn same_report_missing(st: Inf, names: Seq<Seq<char>>, fs: Seq<FieldInit>, span: Span)
    ensures
        (#[trigger] report_missing(st, names, fs, span)).expr_types == st.expr_types,
        report_missing(st, names, fs, span).parser_exprs == st.parser_exprs,
    decreases names.len(),
{
    broadcast use {group_same_19, same_check_field};

    if names.len() > 0 {
        same_report_missing(st, names.drop_last(), fs, span);
    }
}

broadcast proof fn same_not_a_struct(st: Inf, name: Ident, what: Seq<char>)
    ensures
        (#[trigger] not_a_struct(st, name, what)).expr_types == st.expr_types,
        not_a_struct(st, name, what).parser_exprs == st.parser_exprs,
{
    broadcast use {group_same_19, same_check_field, same_report_missing};

}

broadcast proof fn same_head_type(st: Inf, head: Option<Ident>)
    ensures
        (#[trigger] head_type(st, head)).1.expr_types == st.expr_types,
        head_type(st, head).1.parser_exprs == st.parser_exprs,
{
    broadcast use {group_same_19, same_check_field, same_report_missing, same_not_a_struct};

}

broadcast group group_same_20 {
    group_same_19,
    same_check_field,
    same_report_missing,
    same_not_a_struct,
    same_head_type,
}

broadcast proof fn same_infer_literal(st: Inf, tok: Option<LitToken>, range: Span)
    ensures
        (#[trigger] infer_literal(st, tok, range)).1.expr_types == st.expr_types,
        infer_literal(st, tok, range).1.parser_exprs == st.parser_exprs,
{
    broadcast use group_same_20;

}

broadcast proof fn same_infer_parser(st: Inf, body: Option<ParserBody>)
    ensures
        (#[trigger] infer_parser(st, body)).1.expr_types == st.expr_types,
{
    broadcast use {group_same_20, same_infer_literal};

}

broadcast proof fn same_bind_opt(st: Inf, p: Option<Pattern>, ty: Type)
    ensures
        (#[trigger] bind_opt(st, p, ty)).expr_types == st.expr_types,
        bind_opt(st, p, ty).parser_exprs == st.parser_exprs,
{
    broadcast use {group_same_20, same_infer_literal, same_infer_parser};

}

broadcast proof fn same_bind_item(st: Inf, p: Option<Pattern>, item: Type)
    ensures
        (#[trigger] bind_item(st, p, item)).expr_types == st.expr_types,
        bind_item(st, p, item).parser_exprs == st.parser_exprs,
{
    broadcast use {group_same_20, same_infer_literal, same_infer_parser, same_bind_opt};

}

broadcast group group_same_21 {
    group_same_20,
    same_infer_literal,
    same_infer_parser,
    same_bind_opt,
    same_bind_item,
}

broadcast proof fn same_bind_param(st: Inf, p: Param, ty: Type)
    ensures
        (#[trigger] bind_param(st, p, ty)).expr_types == st.expr_types,
        bind_param(st, p, ty).parser_exprs == st.parser_exprs,
{
    broadcast use group_same_21;

}

broadcast proof fn same_param_types(st: Inf, ps: Seq<Param>)
    ensures
        (#[trigger] param_types(st, ps)).1.expr_types == st.expr_types,
        param_types(st, ps).1.parser_exprs == st.parser_exprs,
    decreases ps.len(),
{
    broadcast use {group_same_21, same_bind_param};

    if ps.len() > 0 {
        same_param_types(st, ps.drop_last());
    }
}

broadcast proof fn same_bind_params(st: Inf, ps: Seq<Param>, ts: Seq<Type>)
    ensures
        (#[trigger] bind_params(st, ps, ts)).expr_types == st.expr_types,
        bind_params(st, ps, ts).parser_exprs == st.parser_exprs,
    decreases ps.len(),
{
    broadcast use {group_same_21, same_bind_param, same_param_types};

    if ps.len() > 0 {
        same_bind_params(st, ps.drop_last(), ts);
    }
}

broadcast proof fn same_enter_top(st: Inf, name: Ident, id: SymbolId, t: Type, range: Span)
    ensures
        (#[trigger] enter_top(st, name, id, t, range)).expr_types == st.expr_types,
        enter_top(st, name, id, t, range).parser_exprs == st.parser_exprs,
{
    broadcast use {group_same_21, same_bind_param, same_param_types, same_bind_params};

}

broadcast group group_same_22 {
    group_same_21,
    same_bind_param,
    same_param_types,
    same_bind_params,
    same_enter_top,
}

broadcast proof fn same_bind_var(st: Inf, name: Ident, t: Type, closure: bool, range: Span)
    ensures
        (#[trigger] bind_var(st, name, t, closure, range)).expr_types == st.expr_types,
        bind_var(st, name, t, closure, range).parser_exprs == st.parser_exprs,
{
    broadcast use group_same_22;

}

broadcast proof fn same_assign(st: Inf, name: Option<Ident>, op: Option<AssignToken>, value: Type, at_value: Span, whole: Span)
    ensures
        (#[trigger] assign(st, name, op, value, at_value, whole)).expr_types == st.expr_types,
        assign(st, name, op, value, at_value, whole).parser_exprs == st.parser_exprs,
{
    broadcast use {group_same_22, same_bind_var};

}

broadcast proof fn same_store_place(st: Inf, place: Option<Box<Expr>>, op: PlaceAssignOp, target: Type, value: Type, at_value: Span, whole: Span)
    ensures
        (#[trigger] store_place(st, place, op, target, value, at_value, whole)).expr_types == st.expr_types,
        store_place(st, place, op, target, value, at_value, whole).parser_exprs == st.parser_exprs,
{
    broadcast use {group_same_22, same_bind_var, same_assign};

}

broadcast group group_same_23 {
    group_same_22,
    same_bind_var,
    same_assign,
    same_store_place,
}

// ---------------------------------------------------------------------------
// Expressions
// ---------------------------------------------------------------------------

/// Whether nothing recorded at `a` is lost at `b`.
pub open spec fn grows(a: Inf, b: Inf) -> bool {
    a.expr_types.dom().subset_of(b.expr_types.dom()) && begins(a.parser_exprs, b.parser_exprs)
}

/// Whether `b` begins with `a`.
pub open spec fn begins(a: Seq<IndexView>, b: Seq<IndexView>) -> bool {
    a.len() <= b.len() && forall|i: int| 0 <= i < a.len() ==> (#[trigger] b[i]) == a[i]
}

/// Whether the tree of an expression's parser is kept, where it has one.
pub open spec fn parser_kept(e: Expr, st: Inf) -> bool {
    match e.kind {
        ExprKind::Read(Some(b)) => body_kept(b, st),
        ExprKind::Parse { parser: Some(b), .. } => body_kept(b, st),
        _ => true,
    }
}

pub open spec fn body_kept(b: ParserBody, st: Inf) -> bool {
    b.index matches Some(x) ==> st.parser_exprs.contains(x@)
}

/// Whether an expression has a type, and the tree of its parser is kept.
pub open spec fn recorded(e: Expr, st: Inf) -> bool {
    st.expr_types.dom().contains(e.spec_key()) && parser_kept(e, st)
}

/// Whether every expression among the visits is recorded.
pub open spec fn covered(vs: Seq<Visit>, st: Inf) -> bool {
    forall|i: int|
        0 <= i < vs.len() ==> ((#[trigger] vs[i]) matches Visit::Expr(e) ==> recorded(e, st))
}

proof fn lemma_still_kept(a: Seq<IndexView>, b: Seq<IndexView>, x: IndexView)
    requires
        begins(a, b),
        a.contains(x),
    ensures
        b.contains(x),
{
    let i = choose|i: int| 0 <= i < a.len() && a[i] == x;
    assert(b[i] == x);
}

proof fn lemma_still_recorded(e: Expr, a: Inf, b: Inf)
    requires
        recorded(e, a),
        grows(a, b),
    ensures
        recorded(e, b),
{
    match e.kind {
        ExprKind::Read(Some(p)) => {
            if let Some(x) = p.index {
                lemma_still_kept(a.parser_exprs, b.parser_exprs, x@);
            }
        },
        ExprKind::Parse { parser: Some(p), .. } => {
            if let Some(x) = p.index {
                lemma_still_kept(a.parser_exprs, b.parser_exprs, x@);
            }
        },
        _ => {},
    }
}

pub proof fn lemma_covered_append(a: Seq<Visit>, b: Seq<Visit>, st: Inf)
    requires
        covered(a, st),
        covered(b, st),
    ensures
        covered(a + b, st),
{
    assert forall|i: int| 0 <= i < (a + b).len() implies ((#[trigger] (a + b)[i]) matches Visit::Expr(
        e,
    ) ==> recorded(e, st)) by {
        if i < a.len() {
            assert((a + b)[i] == a[i]);
        } else {
            assert((a + b)[i] == b[i - a.len()]);
        }
    }
}

/// What is covered stays covered.
pub proof fn lemma_still_covered(vs: Seq<Visit>, a: Inf, b: Inf)
    requires
        covered(vs, a),
        grows(a, b),
    ensures
        covered(vs, b),
{
    assert forall|i: int| 0 <= i < vs.len() implies ((#[trigger] vs[i]) matches Visit::Expr(e)
        ==> recorded(e, b)) by {
        if let Visit::Expr(e) = vs[i] {
            lemma_still_recorded(e, a, b);
        }
    }
}

/// What a parser expression leaves behind begins with what was there, and keeps
/// its tree.
proof fn lemma_parser(st: Inf, body: Option<ParserBody>)
    ensures
        grows(st, infer_parser(st, body).1),
        body matches Some(b) ==> body_kept(b, infer_parser(st, body).1),
{
    if let Some(b) = body {
        if let Some(x) = b.index {
            let kept = st.parser_exprs.push(x@);
            assert(kept[st.parser_exprs.len() as int] == x@);
            assert(infer_parser(st, body).1.parser_exprs == kept);
        }
    }
}

/// The tree of an expression's own parser is kept.
#[verifier::spinoff_prover]
proof fn lemma_own_parser(st: Inf, e: Expr)
    ensures
        parser_kept(e, infer_kind(st, e).1),
{
    match e.kind {
        ExprKind::Read(body) => lemma_parser(st, body),
        ExprKind::Parse { text, parser } => {
            lemma_parser(infer_at(st, text, text_type(), e.range), parser);
        },
        _ => {},
    }
}

proof fn lemma_expr(st: Inf, e: Expr)
    ensures
        grows(st, infer_expr(st, e).1),
        covered(expr_descendants(e), infer_expr(st, e).1),
    decreases e, 4nat,
{
    lemma_kind(st, e);
    let s1 = infer_kind(st, e).1;
    let s2 = infer_expr(st, e).1;
    assert(grows(s1, s2));
    let inner = expr_descendants(e).skip(1);
    lemma_still_covered(inner, s1, s2);
    lemma_own_parser(st, e);
    assert(recorded(e, s2));
    assert(covered(seq![Visit::Expr(e)], s2));
    lemma_covered_append(seq![Visit::Expr(e)], inner, s2);
    assert(expr_descendants(e) =~= seq![Visit::Expr(e)] + inner);
}

proof fn lemma_opt(st: Inf, e: Option<Box<Expr>>)
    ensures
        grows(st, infer_opt(st, e).1),
        covered(boxed_descendants(e), infer_opt(st, e).1),
    decreases e, 0nat,
{
    broadcast use group_same_23;

    if let Some(x) = e {
        lemma_expr(st, *x);
    }
}

proof fn lemma_or_unit(st: Inf, e: Option<Box<Expr>>)
    ensures
        grows(st, infer_or_unit(st, e).1),
        covered(boxed_descendants(e), infer_or_unit(st, e).1),
    decreases e, 0nat,
{
    if let Some(x) = e {
        lemma_expr(st, *x);
    }
}

proof fn lemma_at(st: Inf, e: Option<Box<Expr>>, want: Type, whole: Span)
    ensures
        grows(st, infer_at(st, e, want, whole)),
        covered(boxed_descendants(e), infer_at(st, e, want, whole)),
    decreases e, 1nat,
{
    broadcast use group_same_23;

    lemma_opt(st, e);
    lemma_still_covered(boxed_descendants(e), infer_opt(st, e).1, infer_at(st, e, want, whole));
}

proof fn lemma_list(st: Inf, es: Seq<Expr>)
    ensures
        grows(st, infer_list(st, es).1),
        covered(list_descendants(es), infer_list(st, es).1),
    decreases es, 0nat,
{
    if es.len() > 0 {
        let s1 = infer_list(st, es.drop_last()).1;
        lemma_list(st, es.drop_last());
        lemma_expr(s1, es.last());
        let s2 = infer_list(st, es).1;
        lemma_still_covered(list_descendants(es.drop_last()), s1, s2);
        lemma_covered_append(list_descendants(es.drop_last()), expr_descendants(es.last()), s2);
    }
}

#[verifier::spinoff_prover]
#[verifier::rlimit(40)]
proof fn lemma_items(st: Inf, es: Seq<Expr>, item: Type)
    ensures
        grows(st, infer_items(st, es, item)),
        covered(list_descendants(es), infer_items(st, es, item)),
    decreases es, 0nat,
{
    broadcast use group_same_23;

    if es.len() > 0 {
        let s1 = infer_items(st, es.drop_last(), item);
        lemma_items(st, es.drop_last(), item);
        lemma_expr(s1, es.last());
        let s2 = infer_items(st, es, item);
        lemma_still_covered(expr_descendants(es.last()), infer_expr(s1, es.last()).1, s2);
        lemma_still_covered(list_descendants(es.drop_last()), s1, s2);
        lemma_covered_append(list_descendants(es.drop_last()), expr_descendants(es.last()), s2);
    }
}

proof fn lemma_parts(st: Inf, ps: Seq<InterpPart>)
    ensures
        grows(st, infer_parts(st, ps)),
        covered(part_descendants(ps), infer_parts(st, ps)),
    decreases ps, 0nat,
{
    if ps.len() > 0 {
        let s1 = infer_parts(st, ps.drop_last());
        lemma_parts(st, ps.drop_last());
        let s2 = infer_parts(st, ps);
        match ps.last() {
            InterpPart::Fragment(_) => {
                assert(part_descendants(ps) =~= part_descendants(ps.drop_last()));
            },
            InterpPart::Hole(e) => {
                lemma_expr(s1, e);
                lemma_still_covered(part_descendants(ps.drop_last()), s1, s2);
                lemma_covered_append(part_descendants(ps.drop_last()), expr_descendants(e), s2);
            },
        }
    }
}

proof fn lemma_two(a: Seq<Visit>, b: Seq<Visit>, s1: Inf, s2: Inf)
    requires
        covered(a, s1),
        grows(s1, s2),
        covered(b, s2),
    ensures
        covered(a + b, s2),
{
    lemma_still_covered(a, s1, s2);
    lemma_covered_append(a, b, s2);
}

#[verifier::spinoff_prover]
#[verifier::rlimit(40)]
proof fn lemma_leaf(st: Inf, e: Expr)
    requires
        e.kind is Literal || e.kind is Path || e.kind is Continue || e.kind is Read || e.kind is Error,
    ensures
        grows(st, infer_kind(st, e).1),
        covered(expr_descendants(e).skip(1), infer_kind(st, e).1),
    decreases e, 0nat,
{
    broadcast use group_same_23;

    let out = infer_kind(st, e).1;
    let inner = expr_descendants(e).skip(1);
    match e.kind {
        ExprKind::Literal(_) | ExprKind::Path(_) | ExprKind::Continue | ExprKind::Error => {
            assert(inner =~= Seq::empty());
        },
        ExprKind::Read(body) => {
            assert(inner =~= Seq::empty());
            lemma_parser(st, body);
        },
        _ => {},
    }
}

#[verifier::spinoff_prover]
#[verifier::rlimit(40)]
proof fn lemma_operator(st: Inf, e: Expr)
    requires
        e.kind is Bin,
    ensures
        grows(st, infer_kind(st, e).1),
        covered(expr_descendants(e).skip(1), infer_kind(st, e).1),
    decreases e, 0nat,
{
    broadcast use group_same_23;

    let out = infer_kind(st, e).1;
    let inner = expr_descendants(e).skip(1);
    match e.kind {
        ExprKind::Bin { lhs, op, rhs } => {
            let s1 = infer_opt(st, lhs).1;
            let s2 = infer_opt(s1, rhs).1;
            lemma_opt(st, lhs);
            lemma_opt(s1, rhs);
            lemma_two(boxed_descendants(lhs), boxed_descendants(rhs), s1, s2);
            assert(inner =~= boxed_descendants(lhs) + boxed_descendants(rhs));
            lemma_still_covered(inner, s2, out);
        },
        _ => {},
    }
}

#[verifier::spinoff_prover]
#[verifier::rlimit(40)]
proof fn lemma_range(st: Inf, e: Expr)
    requires
        e.kind is Range,
    ensures
        grows(st, infer_kind(st, e).1),
        covered(expr_descendants(e).skip(1), infer_kind(st, e).1),
    decreases e, 0nat,
{
    broadcast use group_same_23;

    let out = infer_kind(st, e).1;
    let inner = expr_descendants(e).skip(1);
    match e.kind {
        ExprKind::Range { start, end, .. } => {
            let s1 = infer_at(st, start, int_type(), e.range);
            lemma_at(st, start, int_type(), e.range);
            lemma_at(s1, end, int_type(), e.range);
            lemma_two(boxed_descendants(start), boxed_descendants(end), s1, out);
            assert(inner =~= boxed_descendants(start) + boxed_descendants(end));
        },
        _ => {},
    }
}

#[verifier::spinoff_prover]
#[verifier::rlimit(40)]
proof fn lemma_one(st: Inf, e: Expr)
    requires
        e.kind is Unary || e.kind is Paren || e.kind is Parse || e.kind is FieldGet || e.kind is TupleIndex,
    ensures
        grows(st, infer_kind(st, e).1),
        covered(expr_descendants(e).skip(1), infer_kind(st, e).1),
    decreases e, 0nat,
{
    broadcast use group_same_23;

    let out = infer_kind(st, e).1;
    let inner = expr_descendants(e).skip(1);
    match e.kind {
        ExprKind::Unary { operand, .. } => {
            lemma_opt(st, operand);
            assert(inner =~= boxed_descendants(operand));
            lemma_still_covered(inner, infer_opt(st, operand).1, out);
        },
        ExprKind::Paren(x) => {
            lemma_opt(st, x);
            assert(inner =~= boxed_descendants(x));
        },
        ExprKind::Parse { text, parser } => {
            lemma_at(st, text, text_type(), e.range);
            lemma_parser(infer_at(st, text, text_type(), e.range), parser);
            assert(inner =~= boxed_descendants(text));
            lemma_still_covered(inner, infer_at(st, text, text_type(), e.range), out);
        },
        ExprKind::FieldGet { receiver, .. } => {
            lemma_opt(st, receiver);
            assert(inner =~= boxed_descendants(receiver));
            lemma_still_covered(inner, infer_opt(st, receiver).1, out);
        },
        ExprKind::TupleIndex { receiver, .. } => {
            lemma_opt(st, receiver);
            assert(inner =~= boxed_descendants(receiver));
            lemma_still_covered(inner, infer_opt(st, receiver).1, out);
        },
        _ => {},
    }
}

#[verifier::spinoff_prover]
#[verifier::rlimit(40)]
proof fn lemma_many(st: Inf, e: Expr)
    requires
        e.kind is Interp || e.kind is Tuple || e.kind is List,
    ensures
        grows(st, infer_kind(st, e).1),
        covered(expr_descendants(e).skip(1), infer_kind(st, e).1),
    decreases e, 0nat,
{
    broadcast use group_same_23;

    let out = infer_kind(st, e).1;
    let inner = expr_descendants(e).skip(1);
    match e.kind {
        ExprKind::Interp(parts) => {
            lemma_parts(st, parts@);
            assert(inner =~= part_descendants(parts@));
        },
        ExprKind::Tuple(es) => {
            lemma_list(st, es@);
            assert(inner =~= list_descendants(es@));
        },
        ExprKind::List(es) => {
            let (item, s1) = fresh(st);
            lemma_items(s1, es@, item);
            assert(inner =~= list_descendants(es@));
        },
        _ => {},
    }
}

#[verifier::spinoff_prover]
#[verifier::rlimit(40)]
proof fn lemma_braced(st: Inf, e: Expr)
    requires
        e.kind is Block,
    ensures
        grows(st, infer_kind(st, e).1),
        covered(expr_descendants(e).skip(1), infer_kind(st, e).1),
    decreases e, 0nat,
{
    broadcast use group_same_23;

    let out = infer_kind(st, e).1;
    let inner = expr_descendants(e).skip(1);
    match e.kind {
        ExprKind::Block(b) => {
            lemma_block(st, b);
            assert(inner =~= stmt_descendants(b.stmts@));
        },
        _ => {},
    }
}

#[verifier::spinoff_prover]
#[verifier::rlimit(40)]
proof fn lemma_flow(st: Inf, e: Expr)
    requires
        e.kind is Break || e.kind is Return,
    ensures
        grows(st, infer_kind(st, e).1),
        covered(expr_descendants(e).skip(1), infer_kind(st, e).1),
    decreases e, 0nat,
{
    broadcast use group_same_23;

    let out = infer_kind(st, e).1;
    let inner = expr_descendants(e).skip(1);
    match e.kind {
        ExprKind::Break(value) => {
            lemma_or_unit(st, value);
            assert(inner =~= boxed_descendants(value));
            lemma_still_covered(inner, infer_or_unit(st, value).1, out);
        },
        ExprKind::Return(value) => {
            lemma_or_unit(st, value);
            assert(inner =~= boxed_descendants(value));
            lemma_still_covered(inner, infer_or_unit(st, value).1, out);
        },
        _ => {},
    }
}

#[verifier::spinoff_prover]
#[verifier::rlimit(40)]
proof fn lemma_looped(st: Inf, e: Expr)
    requires
        e.kind is While || e.kind is Loop,
    ensures
        grows(st, infer_kind(st, e).1),
        covered(expr_descendants(e).skip(1), infer_kind(st, e).1),
    decreases e, 0nat,
{
    broadcast use group_same_23;

    let out = infer_kind(st, e).1;
    let inner = expr_descendants(e).skip(1);
    match e.kind {
        ExprKind::While { cond, body } => {
            let s1 = infer_at(st, cond, bool_type(), e.range);
            lemma_at(st, cond, bool_type(), e.range);
            lemma_loop(s1, body, false);
            lemma_two(boxed_descendants(cond), opt_block_descendants(body), s1, out);
            assert(inner =~= boxed_descendants(cond) + opt_block_descendants(body));
        },
        ExprKind::Loop { body } => {
            lemma_loop(st, body, true);
            assert(inner =~= opt_block_descendants(body));
        },
        _ => {},
    }
}

#[verifier::spinoff_prover]
#[verifier::rlimit(40)]
proof fn lemma_index(st: Inf, e: Expr)
    requires
        e.kind is Index,
    ensures
        grows(st, infer_kind(st, e).1),
        covered(expr_descendants(e).skip(1), infer_kind(st, e).1),
    decreases e, 0nat,
{
    broadcast use group_same_23;

    let out = infer_kind(st, e).1;
    let inner = expr_descendants(e).skip(1);
    match e.kind {
        ExprKind::Index { receiver, indices } => {
            let s1 = infer_opt(st, receiver).1;
            let s2 = infer_list(s1, indices@).1;
            lemma_opt(st, receiver);
            lemma_list(s1, indices@);
            lemma_two(boxed_descendants(receiver), list_descendants(indices@), s1, s2);
            assert(inner =~= boxed_descendants(receiver) + list_descendants(indices@));
            lemma_still_covered(inner, s2, out);
        },
        _ => {},
    }
}

#[verifier::spinoff_prover]
#[verifier::rlimit(40)]
proof fn lemma_match(st: Inf, e: Expr)
    requires
        e.kind is Match,
    ensures
        grows(st, infer_kind(st, e).1),
        covered(expr_descendants(e).skip(1), infer_kind(st, e).1),
    decreases e, 0nat,
{
    broadcast use group_same_23;

    let out = infer_kind(st, e).1;
    let inner = expr_descendants(e).skip(1);
    match e.kind {
        ExprKind::Match { scrutinee, arms } => {
            let (t, s1) = infer_opt(st, scrutinee);
            lemma_opt(st, scrutinee);
            lemma_arms(s1, arms@, t, e.range);
            lemma_two(boxed_descendants(scrutinee), arm_descendants(arms@), s1, out);
            assert(inner =~= boxed_descendants(scrutinee) + arm_descendants(arms@));
        },
        _ => {},
    }
}

#[verifier::spinoff_prover]
#[verifier::rlimit(40)]
proof fn lemma_kind(st: Inf, e: Expr)
    ensures
        grows(st, infer_kind(st, e).1),
        covered(expr_descendants(e).skip(1), infer_kind(st, e).1),
    decreases e, 3nat,
{
    match e.kind {
        ExprKind::Literal(_)
        | ExprKind::Path(_)
        | ExprKind::Continue
        | ExprKind::Read(_)
        | ExprKind::Error => lemma_leaf(st, e),
        ExprKind::Bin { .. } => lemma_operator(st, e),
        ExprKind::Range { .. } => lemma_range(st, e),
        ExprKind::Unary { .. }
        | ExprKind::Paren(_)
        | ExprKind::Parse { .. }
        | ExprKind::FieldGet { .. }
        | ExprKind::TupleIndex { .. } => lemma_one(st, e),
        ExprKind::Interp(_)
        | ExprKind::Tuple(_)
        | ExprKind::List(_) => lemma_many(st, e),
        ExprKind::Block(_) => lemma_braced(st, e),
        ExprKind::Break(_)
        | ExprKind::Return(_) => lemma_flow(st, e),
        ExprKind::While { .. }
        | ExprKind::Loop { .. } => lemma_looped(st, e),
        ExprKind::Index { .. } => lemma_index(st, e),
        ExprKind::Match { .. } => lemma_match(st, e),
        ExprKind::If { .. } => lemma_if(st, e),
        ExprKind::For { .. } => lemma_for(st, e),
        ExprKind::Call { .. } => lemma_call(st, e),
        ExprKind::MethodCall { .. } => lemma_method(st, e),
        ExprKind::RecordLit { .. } => lemma_record(st, e),
        ExprKind::Closure { .. } => lemma_closure(st, e, None),
    }
}

proof fn lemma_branches(st: Inf, e: Expr, cond: Option<Box<Expr>>, then_branch: Option<Block>)
    requires
        decreases_to!(e => cond),
        decreases_to!(e => then_branch),
    ensures
        ({
            let s1 = infer_at(st, cond, bool_type(), e.range);
            let s2 = infer_opt_block(s1, then_branch).1;
            &&& grows(st, s2)
            &&& covered(boxed_descendants(cond) + opt_block_descendants(then_branch), s2)
        }),
    decreases e, 0nat,
{
    let s1 = infer_at(st, cond, bool_type(), e.range);
    let s2 = infer_opt_block(s1, then_branch).1;
    lemma_at(st, cond, bool_type(), e.range);
    lemma_opt_block(s1, then_branch);
    lemma_two(boxed_descendants(cond), opt_block_descendants(then_branch), s1, s2);
}

/// What a conditional leaves recorded is what its last part does.
#[verifier::spinoff_prover]
#[verifier::rlimit(40)]
proof fn lemma_if_types(
    st: Inf,
    e: Expr,
    cond: Option<Box<Expr>>,
    then_branch: Option<Block>,
    else_branch: Option<Box<Expr>>,
)
    requires
        e.kind == (ExprKind::If { cond, then_branch, else_branch }),
    ensures
        ({
            let s2 = infer_opt_block(infer_at(st, cond, bool_type(), e.range), then_branch).1;
            let s3 = if else_branch is Some {
                infer_opt(s2, else_branch).1
            } else {
                s2
            };
            &&& infer_if(st, e).1.expr_types == s3.expr_types
            &&& infer_if(st, e).1.parser_exprs == s3.parser_exprs
        }),
{
    let (t, s2) = infer_opt_block(infer_at(st, cond, bool_type(), e.range), then_branch);
    match else_branch {
        Some(b) => {
            let (u, s3) = infer_opt(s2, else_branch);
            same_join(s3, t, u, b.range);
        },
        None => {
            same_expect(s2, Type::Unit, t, block_span(then_branch, e.range));
        },
    }
}

proof fn lemma_if_covers(
    e: Expr,
    cond: Option<Box<Expr>>,
    then_branch: Option<Block>,
    else_branch: Option<Box<Expr>>,
    s2: Inf,
    s3: Inf,
    out: Inf,
)
    requires
        e.kind == (ExprKind::If { cond, then_branch, else_branch }),
        covered(boxed_descendants(cond) + opt_block_descendants(then_branch), s2),
        grows(s2, s3),
        covered(boxed_descendants(else_branch), s3),
        out.expr_types == s3.expr_types,
        out.parser_exprs == s3.parser_exprs,
    ensures
        covered(expr_descendants(e).skip(1), out),
        grows(s2, out),
{
    let first = boxed_descendants(cond) + opt_block_descendants(then_branch);
    let inner = expr_descendants(e).skip(1);
    assert(inner =~= first + boxed_descendants(else_branch));
    lemma_two(first, boxed_descendants(else_branch), s2, s3);
    lemma_still_covered(inner, s3, out);
}

/// What comes after the first two parts of a conditional.
spec fn after_else(s2: Inf, else_branch: Option<Box<Expr>>) -> Inf {
    if else_branch is Some {
        infer_opt(s2, else_branch).1
    } else {
        s2
    }
}

proof fn lemma_after_else(s2: Inf, else_branch: Option<Box<Expr>>)
    ensures
        grows(s2, after_else(s2, else_branch)),
        covered(boxed_descendants(else_branch), after_else(s2, else_branch)),
    decreases else_branch, 1nat,
{
    if else_branch is Some {
        lemma_opt(s2, else_branch);
    } else {
        assert(boxed_descendants(else_branch) =~= Seq::empty());
    }
}

/// What comes after the first two parts, from the start.
#[verifier::opaque]
spec fn after_then(st: Inf, e: Expr, cond: Option<Box<Expr>>, then_branch: Option<Block>) -> Inf {
    infer_opt_block(infer_at(st, cond, bool_type(), e.range), then_branch).1
}

proof fn lemma_after_then(st: Inf, e: Expr, cond: Option<Box<Expr>>, then_branch: Option<Block>)
    requires
        decreases_to!(e => cond),
        decreases_to!(e => then_branch),
    ensures
        grows(st, after_then(st, e, cond, then_branch)),
        covered(
            boxed_descendants(cond) + opt_block_descendants(then_branch),
            after_then(st, e, cond, then_branch),
        ),
    decreases e, 1nat,
{
    reveal(after_then);
    lemma_branches(st, e, cond, then_branch);
}

proof fn lemma_if_after(
    st: Inf,
    e: Expr,
    cond: Option<Box<Expr>>,
    then_branch: Option<Block>,
    else_branch: Option<Box<Expr>>,
)
    requires
        e.kind == (ExprKind::If { cond, then_branch, else_branch }),
    ensures
        infer_if(st, e).1.expr_types == after_else(
            after_then(st, e, cond, then_branch),
            else_branch,
        ).expr_types,
        infer_if(st, e).1.parser_exprs == after_else(
            after_then(st, e, cond, then_branch),
            else_branch,
        ).parser_exprs,
{
    reveal(after_then);
    lemma_if_types(st, e, cond, then_branch, else_branch);
}

#[verifier::spinoff_prover]
proof fn lemma_if(st: Inf, e: Expr)
    requires
        e.kind is If,
    ensures
        grows(st, infer_if(st, e).1),
        covered(expr_descendants(e).skip(1), infer_if(st, e).1),
    decreases e, 2nat,
{
    if let ExprKind::If { cond, then_branch, else_branch } = e.kind {
        let s2 = after_then(st, e, cond, then_branch);
        let s3 = after_else(s2, else_branch);
        lemma_after_then(st, e, cond, then_branch);
        lemma_after_else(s2, else_branch);
        lemma_if_after(st, e, cond, then_branch, else_branch);
        lemma_if_covers(e, cond, then_branch, else_branch, s2, s3, infer_if(st, e).1);
    }
}

proof fn lemma_loop(st: Inf, body: Option<Block>, valued: bool)
    ensures
        grows(st, infer_loop(st, body, valued).1),
        covered(opt_block_descendants(body), infer_loop(st, body, valued).1),
    decreases body, 1nat,
{
    broadcast use group_same_23;

    let s1 = enter_loop(st, valued);
    lemma_opt_block(s1, body);
    lemma_still_covered(
        opt_block_descendants(body),
        infer_opt_block(s1, body).1,
        infer_loop(st, body, valued).1,
    );
}

proof fn lemma_opt_block(st: Inf, b: Option<Block>)
    ensures
        grows(st, infer_opt_block(st, b).1),
        covered(opt_block_descendants(b), infer_opt_block(st, b).1),
    decreases b, 0nat,
{
    broadcast use group_same_23;

    if let Some(x) = b {
        lemma_block(st, x);
    }
}

#[verifier::spinoff_prover]
#[verifier::rlimit(40)]
proof fn lemma_for(st: Inf, e: Expr)
    requires
        e.kind is For,
    ensures
        grows(st, infer_for(st, e).1),
        covered(expr_descendants(e).skip(1), infer_for(st, e).1),
    decreases e, 0nat,
{
    if let ExprKind::For { binding, iter, body } = e.kind {
        let out = infer_for(st, e).1;
        let (t, s1) = infer_opt(st, iter);
        let (item, s2) = fresh(s1);
        let s3 = require(s2, Capability::Iterable, t, item, span_of(iter, e.range));
        let s4 = bind_item(enter(s3), binding, item);
        let s5 = infer_loop(s4, body, false).1;
        lemma_opt(st, iter);
        same_fresh(s1);
        same_require(s2, Capability::Iterable, t, item, span_of(iter, e.range));
        same_bind_item(enter(s3), binding, item);
        lemma_loop(s4, body, false);
        same_leave(s5, s3.env.len(), s3.scope);
        lemma_for_covers(e, binding, iter, body, s1, s5, out);
    }
}

proof fn lemma_for_covers(
    e: Expr,
    binding: Option<Pattern>,
    iter: Option<Box<Expr>>,
    body: Option<Block>,
    s1: Inf,
    s5: Inf,
    out: Inf,
)
    requires
        e.kind == (ExprKind::For { binding, iter, body }),
        covered(boxed_descendants(iter), s1),
        grows(s1, s5),
        covered(opt_block_descendants(body), s5),
        grows(s5, out),
    ensures
        covered(expr_descendants(e).skip(1), out),
{
    let inner = expr_descendants(e).skip(1);
    lemma_two(boxed_descendants(iter), opt_block_descendants(body), s1, s5);
    assert(inner =~= boxed_descendants(iter) + opt_block_descendants(body));
    lemma_still_covered(inner, s5, out);
}

#[verifier::spinoff_prover]
#[verifier::rlimit(40)]
proof fn lemma_call(st: Inf, e: Expr)
    requires
        e.kind is Call,
    ensures
        grows(st, infer_call(st, e).1),
        covered(expr_descendants(e).skip(1), infer_call(st, e).1),
    decreases e, 0nat,
{
    broadcast use group_same_23;

    if let ExprKind::Call { callee, type_args, callee_expr, args } = e.kind {
        let out = infer_call(st, e).1;
        let inner = expr_descendants(e).skip(1);
        match callee {
            Some(name) => {
                assert(inner =~= list_descendants(args@));
                let before = match in_scope(st.env, name.text@) {
                    Some(id) => {
                        let (f, s1) = use_symbol(st, id, name.range);
                        refer(s1, name.range, id, f)
                    },
                    None => match ctor_named(name.text@) {
                        Some(c) => {
                            let (ts, s1) = types_of(st, type_args@);
                            ctor_args(s1, c, name, ts).1
                        },
                        None => unknown_name(st, name),
                    },
                };
                assert(before.expr_types == st.expr_types);
                lemma_list(before, args@);
                let after = infer_list(before, args@).1;
                assert(out.expr_types == after.expr_types);
                lemma_still_covered(inner, after, out);
            },
            None => {
                let s1 = infer_opt(st, callee_expr).1;
                let s2 = infer_list(s1, args@).1;
                lemma_opt(st, callee_expr);
                lemma_list(s1, args@);
                lemma_two(boxed_descendants(callee_expr), list_descendants(args@), s1, s2);
                assert(inner =~= boxed_descendants(callee_expr) + list_descendants(args@));
                lemma_still_covered(inner, s2, out);
            },
        }
    }
}

#[verifier::spinoff_prover]
#[verifier::rlimit(40)]
proof fn lemma_args(st: Inf, es: Seq<Expr>, wants: Seq<Type>)
    ensures
        grows(st, infer_args(st, es, wants)),
        covered(list_descendants(es), infer_args(st, es, wants)),
    decreases es, 0nat,
{
    broadcast use group_same_23;

    if es.len() > 0 {
        let s1 = infer_args(st, es.drop_last(), wants);
        let (want, s2) = type_at(s1, wants, es.len() - 1);
        lemma_args(st, es.drop_last(), wants);
        lemma_arg(s2, es.last(), want);
        let s3 = infer_args(st, es, wants);
        lemma_two(list_descendants(es.drop_last()), expr_descendants(es.last()), s1, s3);
    }
}

#[verifier::spinoff_prover]
#[verifier::rlimit(40)]
proof fn lemma_arg(st: Inf, e: Expr, want: Type)
    ensures
        grows(st, infer_arg(st, e, want)),
        covered(expr_descendants(e), infer_arg(st, e, want)),
    decreases e, 5nat,
{
    broadcast use group_same_23;

    let out = infer_arg(st, e, want);
    if e.kind is Closure {
        lemma_closure(st, e, Some(want));
        let s1 = infer_closure(st, e, Some(want)).1;
        assert(grows(s1, out));
        let inner = expr_descendants(e).skip(1);
        lemma_still_covered(inner, s1, out);
        assert(covered(seq![Visit::Expr(e)], out));
        lemma_covered_append(seq![Visit::Expr(e)], inner, out);
        assert(expr_descendants(e) =~= seq![Visit::Expr(e)] + inner);
    } else {
        lemma_expr(st, e);
        lemma_still_covered(expr_descendants(e), infer_expr(st, e).1, out);
    }
}

#[verifier::spinoff_prover]
#[verifier::rlimit(40)]
proof fn lemma_method(st: Inf, e: Expr)
    requires
        e.kind is MethodCall,
    ensures
        grows(st, infer_method(st, e).1),
        covered(expr_descendants(e).skip(1), infer_method(st, e).1),
    decreases e, 0nat,
{
    broadcast use group_same_23;

    if let ExprKind::MethodCall { receiver, name, args } = e.kind {
        let out = infer_method(st, e).1;
        let inner = expr_descendants(e).skip(1);
        let (recv, s1) = infer_opt(st, receiver);
        let t = s1.db.resolve(recv);
        lemma_opt(st, receiver);
        assert(inner =~= boxed_descendants(receiver) + list_descendants(args@));
        let row = match name {
            Some(n) => if t is Never || t is Var {
                None
            } else {
                first_row(s1.methods, n.text@, args@.len(), t)
            },
            None => None,
        };
        match row {
            Some(i) => {
                let r = s1.methods[i as int];
                let (wants, result, s2) = use_row(s1, r, t, name->0.range);
                lemma_args(s2, args@, wants);
                let s3 = infer_args(s2, args@, wants);
                lemma_two(boxed_descendants(receiver), list_descendants(args@), s1, s3);
                lemma_still_covered(inner, s3, out);
            },
            None => {
                lemma_list(s1, args@);
                let s2 = infer_list(s1, args@).1;
                lemma_two(boxed_descendants(receiver), list_descendants(args@), s1, s2);
                lemma_still_covered(inner, s2, out);
            },
        }
    }
}

#[verifier::spinoff_prover]
#[verifier::rlimit(40)]
proof fn lemma_record(st: Inf, e: Expr)
    requires
        e.kind is RecordLit,
    ensures
        grows(st, infer_record(st, e).1),
        covered(expr_descendants(e).skip(1), infer_record(st, e).1),
    decreases e, 0nat,
{
    broadcast use group_same_23;

    if let ExprKind::RecordLit { head, fields } = e.kind {
        let out = infer_record(st, e).1;
        let inner = expr_descendants(e).skip(1);
        assert(inner =~= field_descendants(fields@));
        let (ty, s1) = head_type(st, head);
        match ty {
            Some(t) => {
                lemma_fields(s1, fields@, t);
                lemma_still_covered(inner, infer_fields(s1, fields@, t), out);
            },
            None => {
                let s2 = fresh(s1).1;
                lemma_values(s2, fields@);
                lemma_still_covered(inner, infer_values(s2, fields@), out);
            },
        }
    }
}

proof fn lemma_field(st: Inf, f: FieldInit)
    ensures
        grows(st, infer_field(st, f).1),
        covered(boxed_descendants(f.expr), infer_field(st, f).1),
    decreases f, 1nat,
{
    broadcast use group_same_23;

    if f.expr is Some {
        lemma_opt(st, f.expr);
    }
}

#[verifier::spinoff_prover]
#[verifier::rlimit(40)]
proof fn lemma_fields(st: Inf, fs: Seq<FieldInit>, ty: Type)
    ensures
        grows(st, infer_fields(st, fs, ty)),
        covered(field_descendants(fs), infer_fields(st, fs, ty)),
    decreases fs, 0nat,
{
    broadcast use group_same_23;

    if fs.len() > 0 {
        let s1 = infer_fields(st, fs.drop_last(), ty);
        lemma_fields(st, fs.drop_last(), ty);
        lemma_field(s1, fs.last());
        let s2 = infer_field(s1, fs.last()).1;
        let s3 = infer_fields(st, fs, ty);
        lemma_two(field_descendants(fs.drop_last()), boxed_descendants(fs.last().expr), s1, s2);
        lemma_still_covered(field_descendants(fs), s2, s3);
    }
}

proof fn lemma_values(st: Inf, fs: Seq<FieldInit>)
    ensures
        grows(st, infer_values(st, fs)),
        covered(field_descendants(fs), infer_values(st, fs)),
    decreases fs, 0nat,
{
    if fs.len() > 0 {
        let s1 = infer_values(st, fs.drop_last());
        lemma_values(st, fs.drop_last());
        lemma_field(s1, fs.last());
        let s2 = infer_values(st, fs);
        lemma_two(field_descendants(fs.drop_last()), boxed_descendants(fs.last().expr), s1, s2);
    }
}

#[verifier::spinoff_prover]
#[verifier::rlimit(40)]
proof fn lemma_arms(st: Inf, arms: Seq<MatchArm>, ty: Type, whole: Span)
    ensures
        grows(st, infer_arms(st, arms, ty, whole).1),
        covered(arm_descendants(arms), infer_arms(st, arms, ty, whole).1),
    decreases arms, 0nat,
{
    broadcast use group_same_23;

    if arms.len() > 0 {
        let (before, s1) = infer_arms(st, arms.drop_last(), ty, whole);
        lemma_arms(st, arms.drop_last(), ty, whole);
        lemma_arm(s1, arms.last(), ty);
        let s2 = infer_arm(s1, arms.last(), ty).1;
        let s3 = infer_arms(st, arms, ty, whole).1;
        lemma_two(arm_descendants(arms.drop_last()), boxed_descendants(arms.last().body), s1, s2);
        lemma_still_covered(arm_descendants(arms), s2, s3);
    }
}

proof fn lemma_arm(st: Inf, arm: MatchArm, ty: Type)
    ensures
        grows(st, infer_arm(st, arm, ty).1),
        covered(boxed_descendants(arm.body), infer_arm(st, arm, ty).1),
    decreases arm, 1nat,
{
    broadcast use group_same_23;

    let s1 = bind_opt(enter(st), arm.pattern, ty);
    lemma_opt(s1, arm.body);
    lemma_still_covered(
        boxed_descendants(arm.body),
        infer_opt(s1, arm.body).1,
        infer_arm(st, arm, ty).1,
    );
}

#[verifier::spinoff_prover]
#[verifier::rlimit(40)]
proof fn lemma_closure(st: Inf, e: Expr, want: Option<Type>)
    requires
        e.kind is Closure,
    ensures
        grows(st, infer_closure(st, e, want).1),
        covered(expr_descendants(e).skip(1), infer_closure(st, e, want).1),
    decreases e, 0nat,
{
    broadcast use group_same_23;

    if let ExprKind::Closure { params, body } = e.kind {
        let out = infer_closure(st, e, want).1;
        let inner = expr_descendants(e).skip(1);
        assert(inner =~= boxed_descendants(body));
        let (ts, s1) = param_types(st, params@);
        let (r, s2) = fresh(s1);
        let t = Type::Func(crate::types::TypeList::of(ts), Box::new(r));
        let s3 = match want {
            Some(w) => expect(s2, w, t, e.range),
            None => s2,
        };
        let s4 = bind_params(enter_fn(s3, r), params@, ts);
        lemma_at(s4, body, r, e.range);
        lemma_still_covered(inner, infer_at(s4, body, r, e.range), out);
    }
}

// ---------------------------------------------------------------------------
// Statements
// ---------------------------------------------------------------------------

#[verifier::spinoff_prover]
#[verifier::rlimit(40)]
proof fn lemma_block(st: Inf, b: Block)
    ensures
        grows(st, infer_block(st, b).1),
        covered(stmt_descendants(b.stmts@), infer_block(st, b).1),
    decreases b, 0nat,
{
    broadcast use group_same_23;

    lemma_stmts(enter(st), b.stmts@);
    lemma_still_covered(
        stmt_descendants(b.stmts@),
        infer_stmts(enter(st), b.stmts@).1,
        infer_block(st, b).1,
    );
}

proof fn lemma_stmts(st: Inf, stmts: Seq<Stmt>)
    ensures
        grows(st, infer_stmts(st, stmts).1),
        covered(stmt_descendants(stmts), infer_stmts(st, stmts).1),
    decreases stmts, 0nat,
{
    if stmts.len() > 0 {
        let s1 = infer_stmts(st, stmts.drop_last()).1;
        lemma_stmts(st, stmts.drop_last());
        lemma_stmt(s1, stmts.last());
        let s2 = infer_stmts(st, stmts).1;
        lemma_two(
            stmt_descendants(stmts.drop_last()),
            one_stmt_descendants(stmts.last()),
            s1,
            s2,
        );
    }
}

#[verifier::spinoff_prover]
#[verifier::rlimit(40)]
proof fn lemma_stmt(st: Inf, s: Stmt)
    ensures
        grows(st, infer_stmt(st, s).1),
        covered(one_stmt_descendants(s), infer_stmt(st, s).1),
    decreases s, 4nat,
{
    broadcast use group_same_23;

    let out = infer_stmt(st, s).1;
    match s.kind {
        StmtKind::Var { name, annotation, init } => {
            lemma_opt(st, init);
            let s1 = infer_opt(st, init).1;
            lemma_var(st, name, annotation, init, s.range);
            lemma_still_covered(boxed_descendants(init), s1, out);
        },
        StmtKind::Assign { name, op, value } => {
            lemma_opt(st, value);
            let s1 = infer_opt(st, value).1;
            lemma_still_covered(boxed_descendants(value), s1, out);
            let target = match name {
                Some(n) => seq![Visit::Target(n)],
                None => Seq::empty(),
            };
            assert(covered(target, out));
            lemma_covered_append(target, boxed_descendants(value), out);
        },
        StmtKind::PlaceAssign(p) => {
            let s1 = infer_opt(st, p.target).1;
            let s2 = infer_opt(s1, p.value).1;
            lemma_opt(st, p.target);
            lemma_opt(s1, p.value);
            lemma_two(boxed_descendants(p.target), boxed_descendants(p.value), s1, s2);
            lemma_still_covered(one_stmt_descendants(s), s2, out);
        },
        StmtKind::Expr(e) => lemma_or_unit(st, e),
        StmtKind::Other => {},
    }
}

proof fn lemma_var(
    st: Inf,
    name: Option<Ident>,
    annotation: Option<TypeExpr>,
    init: Option<Box<Expr>>,
    range: Span,
)
    ensures
        infer_var(st, name, annotation, init, range).expr_types == infer_opt(st, init).1.expr_types,
        infer_var(st, name, annotation, init, range).parser_exprs == infer_opt(
            st,
            init,
        ).1.parser_exprs,
{
    broadcast use group_same_23;

}

// ---------------------------------------------------------------------------
// Laws
// ---------------------------------------------------------------------------

/// Every expression has a type: whatever stands inside an expression, and the
/// expression itself, is recorded with one. The tree of every parser that has a
/// type is kept, after those kept before.
pub proof fn law_every_expression_has_a_type(st: Inf, e: Expr)
    ensures
        covered(expr_descendants(e), infer_expr(st, e).1),
        grows(st, infer_expr(st, e).1),
{
    lemma_expr(st, e);
}

/// The same of a statement, and of what a file runs: no expression in it is
/// without a type.
pub proof fn law_every_statement_is_typed(st: Inf, s: Stmt)
    ensures
        covered(one_stmt_descendants(s), infer_stmt(st, s).1),
        grows(st, infer_stmt(st, s).1),
{
    lemma_stmt(st, s);
}

/// The same of a block, such as a function's body.
pub proof fn law_every_block_is_typed(st: Inf, b: Block)
    ensures
        covered(stmt_descendants(b.stmts@), infer_block(st, b).1),
        grows(st, infer_block(st, b).1),
{
    lemma_block(st, b);
}

#[verifier::spinoff_prover]
#[verifier::rlimit(40)]
proof fn lemma_loose(st: Inf, f: FnItem)
    ensures
        covered(opt_block_descendants(f.body), infer_loose(st, f)),
        grows(st, infer_loose(st, f)),
{
    broadcast use group_same_23;

    let (ts, s1) = param_types(st, f.params@);
    let (r, s2) = annotated(s1, f.result);
    let s3 = bind_params(enter_fn(s2, r), f.params@, ts);
    lemma_opt_block(s3, f.body);
    lemma_still_covered(
        opt_block_descendants(f.body),
        infer_opt_block(s3, f.body).1,
        infer_loose(st, f),
    );
}

/// The same of a function.
pub proof fn law_every_function_body_is_typed(st: Inf, f: FnItem, id: SymbolId)
    ensures
        covered(opt_block_descendants(f.body), infer_fn(st, f, id)),
        grows(st, infer_fn(st, f, id)),
{
    broadcast use group_same_23;

    lemma_loose(st, f);
    if let Some(Type::Func(ps, r)) = declared_type(st, id) {
        let s1 = bind_params(enter_fn(st, *r), f.params@, ps.seq());
        lemma_opt_block(s1, f.body);
        lemma_still_covered(
            opt_block_descendants(f.body),
            infer_opt_block(s1, f.body).1,
            infer_fn(st, f, id),
        );
    }
}

/// The same of a function that nothing can call.
pub proof fn law_every_loose_body_is_typed(st: Inf, f: FnItem)
    ensures
        covered(opt_block_descendants(f.body), infer_loose(st, f)),
        grows(st, infer_loose(st, f)),
{
    lemma_loose(st, f);
}

/// The same of everything a file runs.
pub proof fn law_every_top_level_statement_is_typed(st: Inf, items: Seq<TopLevel>, i: int)
    requires
        0 <= i < items.len(),
    ensures
        items[i] matches TopLevel::Stmt(s) ==> covered(
            one_stmt_descendants(s),
            infer_top(st, items),
        ),
        grows(st, infer_top(st, items)),
    decreases items.len(),
{
    let s1 = infer_top(st, items.drop_last());
    if i < items.len() - 1 {
        law_every_top_level_statement_is_typed(st, items.drop_last(), i);
    } else {
        lemma_top_grows(st, items.drop_last());
    }
    if let TopLevel::Stmt(s) = items.last() {
        lemma_stmt(s1, s);
        if let TopLevel::Stmt(t) = items[i] {
            if i < items.len() - 1 {
                lemma_still_covered(one_stmt_descendants(t), s1, infer_top(st, items));
            }
        }
    }
}

pub proof fn lemma_top_grows(st: Inf, items: Seq<TopLevel>)
    ensures
        grows(st, infer_top(st, items)),
    decreases items.len(),
{
    if items.len() > 0 {
        lemma_top_grows(st, items.drop_last());
        if let TopLevel::Stmt(s) = items.last() {
            lemma_stmt(infer_top(st, items.drop_last()), s);
        }
    }
}

} // verus!
