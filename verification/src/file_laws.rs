//! What holds of a whole file, from inference to lowering.
use vstd::prelude::*;

use crate::ast::{ExprKind, TopLevel};
use crate::cycles::check_all_cycles;
use crate::descend::{
    file_descendants, one_stmt_descendants, opt_block_descendants, Visit,
};
use crate::infer_laws::{
    covered, grows, law_every_function_body_is_typed, law_every_loose_body_is_typed,
    law_every_top_level_statement_is_typed, lemma_covered_append, lemma_still_covered,
    lemma_top_grows, same_resettle_times,
};
use crate::infer_spec::{
    count_tops, declare_fns, declare_tops, declare_types, define_types, first_tops, fn_symbol,
    infer_file, infer_fn, infer_fn_item, infer_fns, infer_loose, infer_top, report_outer,
    resettle_times, Inf, OuterUse,
};
use crate::lower_laws::{calm, calm_parser, law_lowering_misses_no_type, ready_expr};
use crate::lower_spec::{lower_module, LowerEnv};
use crate::source::Span;

verus! {

/// What inference knows when it comes to the functions of a file.
pub open spec fn declarations(st: Inf, items: Seq<TopLevel>) -> Inf {
    let s1 = check_all_cycles(define_types(declare_types(st, items), items), items);
    declare_fns(declare_tops(s1, items), items)
}

/// What an item holds.
pub open spec fn item_descendants(item: TopLevel) -> Seq<Visit> {
    match item {
        TopLevel::Fn(f) => opt_block_descendants(f.body),
        TopLevel::Stmt(s) => one_stmt_descendants(s),
        _ => Seq::empty(),
    }
}

proof fn lemma_fn_item(st: Inf, item: TopLevel, n: nat)
    ensures
        grows(st, infer_fn_item(st, item, n)),
        item is Fn ==> covered(item_descendants(item), infer_fn_item(st, item, n)),
{
    reveal(infer_fn_item);
    if let TopLevel::Fn(f) = item {
        let s1 = Inf { env: st.env + first_tops(st, n), ..st };
        let out = infer_fn_item(st, item, n);
        match fn_symbol(st, f) {
            Some(id) => {
                let s2 = Inf { inside: Some((id, f.range)), ..s1 };
                law_every_function_body_is_typed(s2, f, id);
                lemma_still_covered(opt_block_descendants(f.body), infer_fn(s2, f, id), out);
            },
            None => {
                law_every_loose_body_is_typed(s1, f);
                lemma_still_covered(opt_block_descendants(f.body), infer_loose(s1, f), out);
            },
        }
    }
}

proof fn lemma_fns(st: Inf, items: Seq<TopLevel>, i: int)
    requires
        0 <= i < items.len(),
    ensures
        items[i] is Fn ==> covered(item_descendants(items[i]), infer_fns(st, items)),
    decreases items.len(),
{
    let s1 = infer_fns(st, items.drop_last());
    let n = count_tops(items.drop_last());
    lemma_fn_item(s1, items.last(), n);
    if i < items.len() - 1 {
        lemma_fns(st, items.drop_last(), i);
        if items[i] is Fn {
            lemma_still_covered(item_descendants(items[i]), s1, infer_fns(st, items));
        }
    }
}

proof fn lemma_items_covered(items: Seq<TopLevel>, out: Inf)
    requires
        forall|i: int| 0 <= i < items.len() ==> covered(item_descendants(#[trigger] items[i]), out),
    ensures
        covered(file_descendants(items), out),
    decreases items.len(),
{
    if items.len() > 0 {
        assert forall|i: int| 0 <= i < items.len() - 1 implies covered(
            item_descendants(#[trigger] items.drop_last()[i]),
            out,
        ) by {
            assert(items.drop_last()[i] == items[i]);
        }
        lemma_items_covered(items.drop_last(), out);
        assert(covered(item_descendants(items[items.len() - 1]), out));
        lemma_covered_append(
            file_descendants(items.drop_last()),
            item_descendants(items.last()),
            out,
        );
    }
}

/// Everything a file holds is typed once its statements are.
proof fn lemma_file_covered(s4: Inf, items: Seq<TopLevel>)
    ensures
        covered(file_descendants(items), infer_top(infer_fns(s4, items), items)),
{
    let s5 = infer_fns(s4, items);
    let s6 = infer_top(s5, items);
    lemma_top_grows(s5, items);
    assert forall|i: int| 0 <= i < items.len() implies covered(
        item_descendants(#[trigger] items[i]),
        s6,
    ) by {
        lemma_fns(s4, items, i);
        law_every_top_level_statement_is_typed(s5, items, i);
        if items[i] is Fn {
            lemma_still_covered(item_descendants(items[i]), s5, s6);
        }
    }
    lemma_items_covered(items, s6);
}

proof fn lemma_reports_keep_types(st: Inf, us: Seq<OuterUse>)
    ensures
        report_outer(st, us).expr_types == st.expr_types,
        report_outer(st, us).parser_exprs == st.parser_exprs,
    decreases us.len(),
{
    if us.len() > 0 {
        lemma_reports_keep_types(st, us.drop_last());
    }
}

/// What comes after the statements records no types.
proof fn lemma_file_end(st: Inf, items: Seq<TopLevel>)
    ensures
        infer_file(st, items).expr_types == infer_top(
            infer_fns(declarations(st, items), items),
            items,
        ).expr_types,
        infer_file(st, items).parser_exprs == infer_top(
            infer_fns(declarations(st, items), items),
            items,
        ).parser_exprs,
{
    let s6 = infer_top(infer_fns(declarations(st, items), items), items);
    let s7 = resettle_times(s6, s6.deferred.len() + 1);
    same_resettle_times(s6, s6.deferred.len() + 1);
    lemma_reports_keep_types(s7, s7.outer_uses);
}

/// Every expression of a file has a type once the file is inferred, and the tree
/// of every parser that has a type is kept.
pub proof fn law_every_expression_of_a_file_has_a_type(st: Inf, items: Seq<TopLevel>)
    ensures
        covered(file_descendants(items), infer_file(st, items)),
{
    let s4 = declarations(st, items);
    lemma_file_covered(s4, items);
    lemma_file_end(st, items);
    lemma_still_covered(
        file_descendants(items),
        infer_top(infer_fns(s4, items), items),
        infer_file(st, items),
    );
}

/// Whether the parser expressions of a file report nothing but what is wrong
/// with them.
pub open spec fn calm_parsers(vs: Seq<Visit>) -> bool {
    forall|i: int|
        0 <= i < vs.len() ==> ((#[trigger] vs[i]) matches Visit::Expr(e) ==> match e.kind {
            ExprKind::Read(p) => calm_parser(p),
            ExprKind::Parse { parser, .. } => calm_parser(parser),
            _ => true,
        })
}

/// A file that was inferred is lowered without missing a type.
pub proof fn law_an_inferred_file_lowers_without_missing_types(
    st: Inf,
    env: LowerEnv,
    items: Seq<TopLevel>,
    range: Span,
)
    requires
        env.expr_types == infer_file(st, items).expr_types,
        calm_parsers(file_descendants(items)),
    ensures
        calm(lower_module(env, items, range).diags),
{
    law_every_expression_of_a_file_has_a_type(st, items);
    let vs = file_descendants(items);
    assert forall|i: int| 0 <= i < vs.len() implies ((#[trigger] vs[i]) matches Visit::Expr(e)
        ==> ready_expr(env, e)) by {}
    law_lowering_misses_no_type(env, items, range);
}

} // verus!
