//! Copies of typed trees: a walk with nothing to replace.
use vstd::prelude::*;

use crate::mono::{chosen_pattern, Mode, MonoContext, MonoPass};
use crate::mono_spec::{copied, lemma_patterns_stay, lemma_tree_stays, MonoEnv};
use crate::name_table::NameTable;
use crate::tree::{expr_tree, pattern_view, TypedExpr, TypedFn, TypedItem, TypedPattern, TypedStmt};
use crate::lower::stmt_view;
use crate::typedb::TypeDb;

verus! {

fn idle_pass() -> MonoPass {
    MonoPass { db: TypeDb::new(), made: Vec::new(), used: Vec::new(), clones: Vec::new() }
}

/// Where there are no functions, no call goes to a copy.
proof fn lemma_nothing_copied(env: MonoEnv)
    requires
        env.originals.len() == 0,
    ensures
        forall|id: crate::symbol::SymbolId| !#[trigger] copied(env, id),
{
}

impl Clone for TypedExpr {
    fn clone(&self) -> (r: TypedExpr)
        ensures
            expr_tree(r) == expr_tree(*self),
    {
        let names = NameTable::default();
        let items: Vec<TypedItem> = Vec::new();
        let ctx = MonoContext { names: &names, originals: &items };
        let mut pass = idle_pass();
        proof {
            lemma_nothing_copied(ctx.env());
            lemma_tree_stays(ctx.env(), 0, expr_tree(*self), pass@);
        }
        pass.walk_expr(&ctx, &Mode::Retarget, 0, self)
    }
}

impl Clone for TypedStmt {
    fn clone(&self) -> (r: TypedStmt)
        ensures
            stmt_view(r) == stmt_view(*self),
    {
        let names = NameTable::default();
        let items: Vec<TypedItem> = Vec::new();
        let ctx = MonoContext { names: &names, originals: &items };
        let mut pass = idle_pass();
        proof {
            lemma_nothing_copied(ctx.env());
            lemma_tree_stays(ctx.env(), 0, stmt_view(*self), pass@);
        }
        pass.walk_stmt(&ctx, &Mode::Retarget, 0, self)
    }
}

impl Clone for TypedFn {
    fn clone(&self) -> (r: TypedFn)
        ensures
            r@ == self@,
    {
        let names = NameTable::default();
        let items: Vec<TypedItem> = Vec::new();
        let ctx = MonoContext { names: &names, originals: &items };
        let mut pass = idle_pass();
        proof {
            lemma_nothing_copied(ctx.env());
            lemma_tree_stays(ctx.env(), crate::mono_spec::NESTING as nat, self@.body, pass@);
        }
        pass.keep(&ctx, self)
    }
}

impl Clone for TypedPattern {
    fn clone(&self) -> (r: TypedPattern)
        ensures
            pattern_view(r) == pattern_view(*self),
    {
        let db = TypeDb::new();
        proof {
            lemma_patterns_stay(db@, pattern_view(*self));
        }
        chosen_pattern(&db, &Mode::Retarget, self)
    }
}

} // verus!
