//! Every expression and every assigned name of a program, parents before
//! children, in source order.
use vstd::prelude::*;

use crate::ast::{
    Block, Expr, ExprKind, FieldInit, Ident, InterpPart, MatchArm, SourceFile, Stmt, StmtKind, TopLevel,
};

verus! {

/// What a walk over a program comes by.
pub ghost enum Visit {
    Expr(Expr),
    /// The name an assignment writes.
    Target(Ident),
}

/// A reference to what a walk comes by.
#[derive(Clone, Copy)]
pub enum Seen<'a> {
    Expr(&'a Expr),
    Target(&'a Ident),
}

impl<'a> View for Seen<'a> {
    type V = Visit;

    open spec fn view(&self) -> Visit {
        match *self {
            Seen::Expr(e) => Visit::Expr(*e),
            Seen::Target(n) => Visit::Target(*n),
        }
    }
}

pub open spec fn visits<'a>(s: Seq<Seen<'a>>) -> Seq<Visit> {
    s.map_values(|v: Seen<'a>| v@)
}

/// `e` and what is inside it.
pub open spec fn expr_descendants(e: Expr) -> Seq<Visit>
    decreases e,
{
    seq![Visit::Expr(e)] + (match e.kind {
        ExprKind::Literal(_)
        | ExprKind::Path(_)
        | ExprKind::Continue
        | ExprKind::Read(_)
        | ExprKind::Error => Seq::empty(),
        ExprKind::Interp(parts) => part_descendants(parts@),
        ExprKind::Bin { lhs, rhs, .. } => boxed_descendants(lhs) + boxed_descendants(rhs),
        ExprKind::Range { start, end, .. } => boxed_descendants(start) + boxed_descendants(end),
        ExprKind::Unary { operand, .. } => boxed_descendants(operand),
        ExprKind::Paren(inner) => boxed_descendants(inner),
        ExprKind::Block(b) => stmt_descendants(b.stmts@),
        ExprKind::If { cond, then_branch, else_branch } => boxed_descendants(cond)
            + opt_block_descendants(then_branch) + boxed_descendants(else_branch),
        ExprKind::While { cond, body } => boxed_descendants(cond) + opt_block_descendants(body),
        ExprKind::For { iter, body, .. } => boxed_descendants(iter) + opt_block_descendants(body),
        ExprKind::Loop { body } => opt_block_descendants(body),
        ExprKind::Break(value) => boxed_descendants(value),
        ExprKind::Return(value) => boxed_descendants(value),
        ExprKind::Call { callee, callee_expr, args, .. } => (if callee is None {
            boxed_descendants(callee_expr)
        } else {
            Seq::empty()
        }) + list_descendants(args@),
        ExprKind::MethodCall { receiver, args, .. } => boxed_descendants(receiver)
            + list_descendants(args@),
        ExprKind::Tuple(els) => list_descendants(els@),
        ExprKind::List(els) => list_descendants(els@),
        ExprKind::Parse { text, .. } => boxed_descendants(text),
        ExprKind::RecordLit { fields, .. } => field_descendants(fields@),
        ExprKind::FieldGet { receiver, .. } => boxed_descendants(receiver),
        ExprKind::TupleIndex { receiver, .. } => boxed_descendants(receiver),
        ExprKind::Index { receiver, indices } => boxed_descendants(receiver) + list_descendants(
            indices@,
        ),
        ExprKind::Match { scrutinee, arms } => boxed_descendants(scrutinee) + arm_descendants(
            arms@,
        ),
        ExprKind::Closure { body, .. } => boxed_descendants(body),
    })
}

pub open spec fn boxed_descendants(e: Option<Box<Expr>>) -> Seq<Visit>
    decreases e,
{
    match e {
        Some(b) => expr_descendants(*b),
        None => Seq::empty(),
    }
}

pub open spec fn opt_block_descendants(b: Option<Block>) -> Seq<Visit>
    decreases b,
{
    match b {
        Some(b) => stmt_descendants(b.stmts@),
        None => Seq::empty(),
    }
}

pub open spec fn list_descendants(s: Seq<Expr>) -> Seq<Visit>
    decreases s,
{
    if s.len() == 0 {
        Seq::empty()
    } else {
        list_descendants(s.drop_last()) + expr_descendants(s.last())
    }
}

pub open spec fn part_descendants(s: Seq<InterpPart>) -> Seq<Visit>
    decreases s,
{
    if s.len() == 0 {
        Seq::empty()
    } else {
        part_descendants(s.drop_last()) + (match s.last() {
            InterpPart::Hole(e) => expr_descendants(e),
            InterpPart::Fragment(_) => Seq::empty(),
        })
    }
}

pub open spec fn field_descendants(s: Seq<FieldInit>) -> Seq<Visit>
    decreases s,
{
    if s.len() == 0 {
        Seq::empty()
    } else {
        field_descendants(s.drop_last()) + boxed_descendants(s.last().expr)
    }
}

pub open spec fn arm_descendants(s: Seq<MatchArm>) -> Seq<Visit>
    decreases s,
{
    if s.len() == 0 {
        Seq::empty()
    } else {
        arm_descendants(s.drop_last()) + boxed_descendants(s.last().body)
    }
}

pub open spec fn stmt_descendants(s: Seq<Stmt>) -> Seq<Visit>
    decreases s,
{
    if s.len() == 0 {
        Seq::empty()
    } else {
        stmt_descendants(s.drop_last()) + one_stmt_descendants(s.last())
    }
}

pub open spec fn one_stmt_descendants(s: Stmt) -> Seq<Visit>
    decreases s,
{
    match s.kind {
        StmtKind::Var { init, .. } => boxed_descendants(init),
        StmtKind::Assign { name, value, .. } => (match name {
            Some(n) => seq![Visit::Target(n)],
            None => Seq::empty(),
        }) + boxed_descendants(value),
        StmtKind::PlaceAssign(store) => boxed_descendants(store.target) + boxed_descendants(
            store.value,
        ),
        StmtKind::Expr(e) => boxed_descendants(e),
        StmtKind::Other => Seq::empty(),
    }
}

/// What there is to visit in a file.
pub open spec fn file_descendants(items: Seq<TopLevel>) -> Seq<Visit>
    decreases items.len(),
{
    if items.len() == 0 {
        Seq::empty()
    } else {
        file_descendants(items.drop_last()) + (match items.last() {
            TopLevel::Fn(f) => opt_block_descendants(f.body),
            TopLevel::Stmt(s) => one_stmt_descendants(s),
            _ => Seq::empty(),
        })
    }
}

proof fn lemma_push_visit<'a>(s: Seq<Seen<'a>>, v: Seen<'a>)
    ensures
        visits(s.push(v)) == visits(s).push(v@),
{
    assert(visits(s.push(v)) =~= visits(s).push(v@));
}

fn collect<'a>(e: &'a Expr, out: &mut Vec<Seen<'a>>)
    ensures
        visits(final(out)@) == visits(old(out)@) + expr_descendants(*e),
    decreases e,
{
    let ghost start = visits(out@);
    proof {
        lemma_push_visit(out@, Seen::Expr(e));
    }
    out.push(Seen::Expr(e));
    match &e.kind {
        ExprKind::Literal(_)
        | ExprKind::Path(_)
        | ExprKind::Continue
        | ExprKind::Read(_)
        | ExprKind::Error => {},
        ExprKind::Interp(parts) => collect_parts(parts, out),
        ExprKind::Bin { lhs, rhs, .. } => {
            collect_boxed(lhs, out);
            collect_boxed(rhs, out);
        },
        ExprKind::Range { start, end, .. } => {
            collect_boxed(start, out);
            collect_boxed(end, out);
        },
        ExprKind::Unary { operand, .. } => collect_boxed(operand, out),
        ExprKind::Paren(inner) => collect_boxed(inner, out),
        ExprKind::Block(b) => collect_stmts(&b.stmts, out),
        ExprKind::If { cond, then_branch, else_branch } => {
            collect_boxed(cond, out);
            collect_opt_block(then_branch, out);
            collect_boxed(else_branch, out);
        },
        ExprKind::While { cond, body } => {
            collect_boxed(cond, out);
            collect_opt_block(body, out);
        },
        ExprKind::For { iter, body, .. } => {
            collect_boxed(iter, out);
            collect_opt_block(body, out);
        },
        ExprKind::Loop { body } => collect_opt_block(body, out),
        ExprKind::Break(value) => collect_boxed(value, out),
        ExprKind::Return(value) => collect_boxed(value, out),
        ExprKind::Call { callee, callee_expr, args, .. } => {
            if callee.is_none() {
                collect_boxed(callee_expr, out);
            }
            collect_list(args, out);
        },
        ExprKind::MethodCall { receiver, args, .. } => {
            collect_boxed(receiver, out);
            collect_list(args, out);
        },
        ExprKind::Tuple(els) => collect_list(els, out),
        ExprKind::List(els) => collect_list(els, out),
        ExprKind::Parse { text, .. } => collect_boxed(text, out),
        ExprKind::RecordLit { fields, .. } => collect_fields(fields, out),
        ExprKind::FieldGet { receiver, .. } => collect_boxed(receiver, out),
        ExprKind::TupleIndex { receiver, .. } => collect_boxed(receiver, out),
        ExprKind::Index { receiver, indices } => {
            collect_boxed(receiver, out);
            collect_list(indices, out);
        },
        ExprKind::Match { scrutinee, arms } => {
            collect_boxed(scrutinee, out);
            collect_arms(arms, out);
        },
        ExprKind::Closure { body, .. } => collect_boxed(body, out),
    }
    assert(visits(out@) =~= start + expr_descendants(*e));
}

fn collect_boxed<'a>(e: &'a Option<Box<Expr>>, out: &mut Vec<Seen<'a>>)
    ensures
        visits(final(out)@) == visits(old(out)@) + boxed_descendants(*e),
    decreases e,
{
    match e {
        Some(b) => collect(b, out),
        None => {
            assert(visits(out@) =~= visits(old(out)@) + boxed_descendants(*e));
        },
    }
}

fn collect_opt_block<'a>(b: &'a Option<Block>, out: &mut Vec<Seen<'a>>)
    ensures
        visits(final(out)@) == visits(old(out)@) + opt_block_descendants(*b),
    decreases b,
{
    match b {
        Some(b) => collect_stmts(&b.stmts, out),
        None => {
            assert(visits(out@) =~= visits(old(out)@) + opt_block_descendants(*b));
        },
    }
}

fn collect_list<'a>(s: &'a Vec<Expr>, out: &mut Vec<Seen<'a>>)
    ensures
        visits(final(out)@) == visits(old(out)@) + list_descendants(s@),
    decreases s,
{
    let ghost start = visits(out@);
    let mut i: usize = 0;
    assert(visits(out@) =~= start + list_descendants(s@.take(0)));
    while i < s.len()
        invariant
            i <= s@.len(),
            visits(out@) == start + list_descendants(s@.take(i as int)),
        decreases s@.len() - i,
    {
        assert(s@.take(i + 1).drop_last() =~= s@.take(i as int));
        collect(&s[i], out);
        assert(visits(out@) =~= start + list_descendants(s@.take(i + 1)));
        i += 1;
    }
    assert(s@.take(i as int) =~= s@);
}

fn collect_parts<'a>(s: &'a Vec<InterpPart>, out: &mut Vec<Seen<'a>>)
    ensures
        visits(final(out)@) == visits(old(out)@) + part_descendants(s@),
    decreases s,
{
    let ghost start = visits(out@);
    let mut i: usize = 0;
    assert(visits(out@) =~= start + part_descendants(s@.take(0)));
    while i < s.len()
        invariant
            i <= s@.len(),
            visits(out@) == start + part_descendants(s@.take(i as int)),
        decreases s@.len() - i,
    {
        assert(s@.take(i + 1).drop_last() =~= s@.take(i as int));
        match &s[i] {
            InterpPart::Hole(e) => collect(e, out),
            InterpPart::Fragment(_) => {},
        }
        assert(visits(out@) =~= start + part_descendants(s@.take(i + 1)));
        i += 1;
    }
    assert(s@.take(i as int) =~= s@);
}

fn collect_fields<'a>(s: &'a Vec<FieldInit>, out: &mut Vec<Seen<'a>>)
    ensures
        visits(final(out)@) == visits(old(out)@) + field_descendants(s@),
    decreases s,
{
    let ghost start = visits(out@);
    let mut i: usize = 0;
    assert(visits(out@) =~= start + field_descendants(s@.take(0)));
    while i < s.len()
        invariant
            i <= s@.len(),
            visits(out@) == start + field_descendants(s@.take(i as int)),
        decreases s@.len() - i,
    {
        assert(s@.take(i + 1).drop_last() =~= s@.take(i as int));
        collect_boxed(&s[i].expr, out);
        assert(visits(out@) =~= start + field_descendants(s@.take(i + 1)));
        i += 1;
    }
    assert(s@.take(i as int) =~= s@);
}

fn collect_arms<'a>(s: &'a Vec<MatchArm>, out: &mut Vec<Seen<'a>>)
    ensures
        visits(final(out)@) == visits(old(out)@) + arm_descendants(s@),
    decreases s,
{
    let ghost start = visits(out@);
    let mut i: usize = 0;
    assert(visits(out@) =~= start + arm_descendants(s@.take(0)));
    while i < s.len()
        invariant
            i <= s@.len(),
            visits(out@) == start + arm_descendants(s@.take(i as int)),
        decreases s@.len() - i,
    {
        assert(s@.take(i + 1).drop_last() =~= s@.take(i as int));
        collect_boxed(&s[i].body, out);
        assert(visits(out@) =~= start + arm_descendants(s@.take(i + 1)));
        i += 1;
    }
    assert(s@.take(i as int) =~= s@);
}

fn collect_stmts<'a>(s: &'a Vec<Stmt>, out: &mut Vec<Seen<'a>>)
    ensures
        visits(final(out)@) == visits(old(out)@) + stmt_descendants(s@),
    decreases s,
{
    let ghost start = visits(out@);
    let mut i: usize = 0;
    assert(visits(out@) =~= start + stmt_descendants(s@.take(0)));
    while i < s.len()
        invariant
            i <= s@.len(),
            visits(out@) == start + stmt_descendants(s@.take(i as int)),
        decreases s@.len() - i,
    {
        assert(s@.take(i + 1).drop_last() =~= s@.take(i as int));
        collect_stmt(&s[i], out);
        assert(visits(out@) =~= start + stmt_descendants(s@.take(i + 1)));
        i += 1;
    }
    assert(s@.take(i as int) =~= s@);
}

fn collect_stmt<'a>(s: &'a Stmt, out: &mut Vec<Seen<'a>>)
    ensures
        visits(final(out)@) == visits(old(out)@) + one_stmt_descendants(*s),
    decreases s,
{
    match &s.kind {
        StmtKind::Var { init, .. } => collect_boxed(init, out),
        StmtKind::Assign { name, value, .. } => {
            if let Some(n) = name {
                proof {
                    lemma_push_visit(out@, Seen::Target(n));
                }
                out.push(Seen::Target(n));
            }
            collect_boxed(value, out);
            assert(visits(out@) =~= visits(old(out)@) + one_stmt_descendants(*s));
        },
        StmtKind::PlaceAssign(store) => {
            collect_boxed(&store.target, out);
            collect_boxed(&store.value, out);
            assert(visits(out@) =~= visits(old(out)@) + one_stmt_descendants(*s));
        },
        StmtKind::Expr(e) => collect_boxed(e, out),
        StmtKind::Other => {
            assert(visits(out@) =~= visits(old(out)@) + one_stmt_descendants(*s));
        },
    }
}

/// Everything inside `e`, `e` first.
pub fn descendants_of(e: &Expr) -> (r: Vec<Seen<'_>>)
    ensures
        visits(r@) == expr_descendants(*e),
{
    let mut out: Vec<Seen<'_>> = Vec::new();
    collect(e, &mut out);
    assert(visits(out@) =~= expr_descendants(*e));
    out
}

/// Everything to visit in the file.
pub fn descendants(root: &SourceFile) -> (r: Vec<Seen<'_>>)
    ensures
        visits(r@) == file_descendants(root.items@),
{
    let mut out: Vec<Seen<'_>> = Vec::new();
    let mut i: usize = 0;
    assert(visits(out@) =~= file_descendants(root.items@.take(0)));
    while i < root.items.len()
        invariant
            i <= root.items@.len(),
            visits(out@) == file_descendants(root.items@.take(i as int)),
        decreases root.items@.len() - i,
    {
        assert(root.items@.take(i + 1).drop_last() =~= root.items@.take(i as int));
        match &root.items[i] {
            TopLevel::Fn(f) => collect_opt_block(&f.body, &mut out),
            TopLevel::Stmt(s) => collect_stmt(s, &mut out),
            _ => {},
        }
        assert(visits(out@) =~= file_descendants(root.items@.take(i + 1)));
        i += 1;
    }
    assert(root.items@.take(i as int) =~= root.items@);
    out
}

} // verus!
