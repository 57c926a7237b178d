//! What programs do, and that lowering keeps it.
//!
//! Two readings of a program are given side by side: one of the source, by what is
//! written and what its names refer to, and one of lowered trees. Where the first
//! says what happens, the second says the same of the lowered tree.
use vstd::prelude::*;

use crate::analysis::{MethodLowering, MethodRef};
use crate::ast::{
    AssignToken, BinToken, Block, Expr, ExprKind, InterpPart, PlaceAssignOp, Stmt, StmtKind,
    UnaryToken,
};
use crate::lower_spec::{
    assign_op, assign_tree, bin_op, effect, error_tree, lower_as_block, lower_assign, lower_block, lower_bound,
    lower_call, lower_effect, lower_else, lower_expr, lower_index, lower_interp, lower_list,
    lower_method_call, lower_opt, lower_opt_block, lower_parts, lower_stmt, lower_stmts,
    lower_value, lower_var, node_ty, place_op, var_tree, LowerEnv, LowerState,
};
use crate::name_table::lookup;
use crate::symbol::{SymbolId, SymbolKind};
use crate::tables::at;
use crate::tree::{AssignOp, BinOp, LitView, Node, RuntimeSymbol, Tree, UnaryOp};
use crate::types::EnumDefId;
use crate::value_laws::denoted;

verus! {

// ---------------------------------------------------------------------------
// Data
// ---------------------------------------------------------------------------

/// A value at run time.
pub ghost enum Datum {
    Unit,
    Int(int),
    Bool(bool),
    Text(Seq<char>),
    Char(u32),
    Float(u64),
    Tuple(Seq<Datum>),
    List(Seq<Datum>),
    /// From, to, and whether the end belongs to it.
    Range(int, int, bool),
    Variant(EnumDefId, u32, Seq<Datum>),
}

/// What the names in scope hold.
pub type Memory = Map<SymbolId, Datum>;

/// What running something comes to.
pub ghost enum Outcome {
    /// It has a value.
    Value(Datum, Memory),
    /// The loop around it is left, with a value.
    Broken(Datum, Memory),
    /// The next round of the loop around it begins.
    Continued(Memory),
    /// The function around it returns.
    Returned(Datum, Memory),
    /// Nothing is said of it.
    Unknown,
}

/// What running several things in order comes to.
pub ghost enum Outcomes {
    Values(Seq<Datum>, Memory),
    Cut(Outcome),
}

/// What calls do, and how values are written.
pub ghost struct Host {
    pub call: spec_fn(SymbolId, Seq<Datum>) -> Datum,
    pub method: spec_fn(Seq<char>, Option<RuntimeSymbol>, Seq<Datum>) -> Datum,
    pub show: spec_fn(Datum) -> Seq<char>,
}

pub open spec fn sum(a: Datum, b: Datum) -> Option<Datum> {
    match (a, b) {
        (Datum::Int(x), Datum::Int(y)) => Some(Datum::Int(x + y)),
        (Datum::Text(x), Datum::Text(y)) => Some(Datum::Text(x + y)),
        _ => None,
    }
}

pub open spec fn difference(a: Datum, b: Datum) -> Option<Datum> {
    match (a, b) {
        (Datum::Int(x), Datum::Int(y)) => Some(Datum::Int(x - y)),
        _ => None,
    }
}

pub open spec fn product(a: Datum, b: Datum) -> Option<Datum> {
    match (a, b) {
        (Datum::Int(x), Datum::Int(y)) => Some(Datum::Int(x * y)),
        _ => None,
    }
}

pub open spec fn quotient(a: Datum, b: Datum) -> Option<Datum> {
    match (a, b) {
        (Datum::Int(x), Datum::Int(y)) => if y == 0 {
            None
        } else {
            Some(Datum::Int(x / y))
        },
        _ => None,
    }
}

pub open spec fn remainder(a: Datum, b: Datum) -> Option<Datum> {
    match (a, b) {
        (Datum::Int(x), Datum::Int(y)) => if y == 0 {
            None
        } else {
            Some(Datum::Int(x % y))
        },
        _ => None,
    }
}

pub open spec fn less(a: Datum, b: Datum) -> Option<Datum> {
    match (a, b) {
        (Datum::Int(x), Datum::Int(y)) => Some(Datum::Bool(x < y)),
        (Datum::Char(x), Datum::Char(y)) => Some(Datum::Bool(x < y)),
        _ => None,
    }
}

pub open spec fn opposite(a: Option<Datum>) -> Option<Datum> {
    match a {
        Some(Datum::Bool(b)) => Some(Datum::Bool(!b)),
        _ => None,
    }
}

pub open spec fn negative(a: Datum) -> Option<Datum> {
    match a {
        Datum::Int(x) => Some(Datum::Int(-x)),
        _ => None,
    }
}

/// What an operator token does to its operands.
pub open spec fn token_means(op: BinToken, a: Datum, b: Datum) -> Option<Datum> {
    match op {
        BinToken::Plus => sum(a, b),
        BinToken::Minus => difference(a, b),
        BinToken::Star => product(a, b),
        BinToken::Slash => quotient(a, b),
        BinToken::Percent => remainder(a, b),
        BinToken::Eq2 => Some(Datum::Bool(a == b)),
        BinToken::Neq => Some(Datum::Bool(a != b)),
        BinToken::Lt => less(a, b),
        BinToken::Gt => less(b, a),
        BinToken::LtEq => opposite(less(b, a)),
        BinToken::GtEq => opposite(less(a, b)),
        BinToken::Pipe2 | BinToken::Amp2 => None,
    }
}

/// What an operator of a lowered tree does to its operands.
pub open spec fn operator_means(op: BinOp, a: Datum, b: Datum) -> Option<Datum> {
    match op {
        BinOp::Add => sum(a, b),
        BinOp::Sub => difference(a, b),
        BinOp::Mul => product(a, b),
        BinOp::Div => quotient(a, b),
        BinOp::Rem => remainder(a, b),
        BinOp::Eq => Some(Datum::Bool(a == b)),
        BinOp::Neq => Some(Datum::Bool(a != b)),
        BinOp::Lt => less(a, b),
        BinOp::Gt => less(b, a),
        BinOp::Le => opposite(less(b, a)),
        BinOp::Ge => opposite(less(a, b)),
        BinOp::LogicalOr | BinOp::LogicalAnd => None,
    }
}

/// What an assignment token leaves in the place of the old value.
pub open spec fn store_means(op: AssignToken, old: Datum, v: Datum) -> Option<Datum> {
    match op {
        AssignToken::Eq => Some(v),
        AssignToken::PlusEq => sum(old, v),
        AssignToken::MinusEq => difference(old, v),
        AssignToken::StarEq => product(old, v),
        AssignToken::SlashEq => quotient(old, v),
        AssignToken::PercentEq => remainder(old, v),
    }
}

/// What an assignment of a lowered tree leaves in the place of the old value.
pub open spec fn assignment_means(op: AssignOp, old: Datum, v: Datum) -> Option<Datum> {
    match op {
        AssignOp::Assign => Some(v),
        AssignOp::AddAssign => sum(old, v),
        AssignOp::SubAssign => difference(old, v),
        AssignOp::MulAssign => product(old, v),
        AssignOp::DivAssign => quotient(old, v),
        AssignOp::RemAssign => remainder(old, v),
    }
}

/// Each operator token lowers to the operator of that meaning.
pub proof fn law_operators_keep_their_meaning(op: BinToken, a: Datum, b: Datum)
    ensures
        operator_means(bin_op(Some(op)), a, b) == token_means(op, a, b),
        bin_op(Some(op)) == BinOp::LogicalOr <==> op == BinToken::Pipe2,
        bin_op(Some(op)) == BinOp::LogicalAnd <==> op == BinToken::Amp2,
{
}

/// Different operator tokens lower to different operators, and each to the one
/// that is written so.
pub proof fn law_operators_are_told_apart(a: BinToken, b: BinToken)
    ensures
        bin_op(Some(a)) == bin_op(Some(b)) <==> a == b,
        bin_op(Some(BinToken::Plus)) == BinOp::Add,
        bin_op(Some(BinToken::Minus)) == BinOp::Sub,
        bin_op(Some(BinToken::Star)) == BinOp::Mul,
        bin_op(Some(BinToken::Slash)) == BinOp::Div,
        bin_op(Some(BinToken::Percent)) == BinOp::Rem,
        bin_op(Some(BinToken::Eq2)) == BinOp::Eq,
        bin_op(Some(BinToken::Neq)) == BinOp::Neq,
        bin_op(Some(BinToken::Lt)) == BinOp::Lt,
        bin_op(Some(BinToken::Gt)) == BinOp::Gt,
        bin_op(Some(BinToken::LtEq)) == BinOp::Le,
        bin_op(Some(BinToken::GtEq)) == BinOp::Ge,
        bin_op(Some(BinToken::Pipe2)) == BinOp::LogicalOr,
        bin_op(Some(BinToken::Amp2)) == BinOp::LogicalAnd,
{
}

/// Each assignment token lowers to the assignment of that meaning, and different
/// ones to different ones.
pub proof fn law_assignments_keep_their_meaning(
    op: AssignToken,
    other: AssignToken,
    old: Datum,
    v: Datum,
)
    ensures
        assignment_means(assign_op(Some(op)), old, v) == store_means(op, old, v),
        assign_op(Some(op)) == assign_op(Some(other)) <==> op == other,
{
}

/// A store to a place applies to the old value the operator it is written with; a
/// plain store, and the updates that a routine carries out, apply none.
pub proof fn law_place_stores_keep_their_operator(op: PlaceAssignOp, old: Datum, v: Datum)
    ensures
        assignment_means(place_op(op), old, v) == match op {
            PlaceAssignOp::Plus => sum(old, v),
            PlaceAssignOp::Minus => difference(old, v),
            PlaceAssignOp::Times => product(old, v),
            PlaceAssignOp::Div => quotient(old, v),
            PlaceAssignOp::Rem => remainder(old, v),
            _ => Some(v),
        },
{
}

// ---------------------------------------------------------------------------
// Lowered trees
// ---------------------------------------------------------------------------

pub open spec fn lit_datum(l: LitView) -> Datum {
    match l {
        LitView::Int(n) => Datum::Int(n as int),
        LitView::Float(b) => Datum::Float(b),
        LitView::Text(t) => Datum::Text(t),
        LitView::Bool(b) => Datum::Bool(b),
        LitView::Char(c) => Datum::Char(c),
        LitView::Unit => Datum::Unit,
    }
}

pub open spec fn given(d: Option<Datum>, m: Memory) -> Outcome {
    match d {
        Some(d) => Outcome::Value(d, m),
        None => Outcome::Unknown,
    }
}

pub open spec fn without_value(o: Outcome) -> Outcome {
    match o {
        Outcome::Value(_, m) => Outcome::Value(Datum::Unit, m),
        _ => o,
    }
}

/// The pieces of an interpolated text: each text, and then the value after it.
pub open spec fn woven(host: Host, texts: Seq<Seq<char>>, vs: Seq<Datum>) -> Seq<char>
    decreases texts.len(),
{
    if texts.len() == 0 || texts.len() != vs.len() {
        Seq::empty()
    } else {
        woven(host, texts.drop_last(), vs.drop_last()) + texts.last() + (host.show)(vs.last())
    }
}

/// What running a lowered tree comes to. Loops go round at most `fuel` times.
pub open spec fn run(host: Host, t: Tree, m: Memory, fuel: nat) -> Outcome
    decreases fuel, t, 1nat,
{
    match t.node {
        Node::Lit(l) => Outcome::Value(lit_datum(l), m),
        Node::Path(s) => if m.contains_key(s) {
            Outcome::Value(m[s], m)
        } else {
            Outcome::Unknown
        },
        Node::EnumVariant(d, i) => match run_all(host, t.kids, m, fuel) {
            Outcomes::Values(vs, m1) => Outcome::Value(Datum::Variant(d, i, vs), m1),
            Outcomes::Cut(o) => o,
        },
        Node::Bin(op) => if op == BinOp::LogicalOr || op == BinOp::LogicalAnd {
            match run_at(host, t.kids, 0, m, fuel) {
                Outcome::Value(Datum::Bool(b), m1) => if b == (op == BinOp::LogicalOr) {
                    Outcome::Value(Datum::Bool(b), m1)
                } else {
                    run_at(host, t.kids, 1, m1, fuel)
                },
                Outcome::Value(_, _) => Outcome::Unknown,
                o => o,
            }
        } else {
            match run_at(host, t.kids, 0, m, fuel) {
                Outcome::Value(a, m1) => match run_at(host, t.kids, 1, m1, fuel) {
                    Outcome::Value(b, m2) => given(operator_means(op, a, b), m2),
                    o => o,
                },
                o => o,
            }
        },
        Node::Unary(op) => match run_at(host, t.kids, 0, m, fuel) {
            Outcome::Value(a, m1) => given(
                if op == UnaryOp::Not {
                    opposite(Some(a))
                } else {
                    negative(a)
                },
                m1,
            ),
            o => o,
        },
        Node::Range(inclusive) => match run_at(host, t.kids, 0, m, fuel) {
            Outcome::Value(Datum::Int(start), m1) => match run_at(host, t.kids, 1, m1, fuel) {
                Outcome::Value(Datum::Int(end), m2) => Outcome::Value(
                    Datum::Range(start, end, inclusive),
                    m2,
                ),
                Outcome::Value(_, _) => Outcome::Unknown,
                o => o,
            },
            Outcome::Value(_, _) => Outcome::Unknown,
            o => o,
        },
        Node::Block => run_in_order(host, t.kids, m, fuel),
        Node::If => match run_at(host, t.kids, 0, m, fuel) {
            Outcome::Value(Datum::Bool(c), m1) => if t.kids.len() == 3 {
                run_at(
                    host,
                    t.kids,
                    if c {
                        1
                    } else {
                        2
                    },
                    m1,
                    fuel,
                )
            } else if c {
                without_value(run_at(host, t.kids, 1, m1, fuel))
            } else {
                Outcome::Value(Datum::Unit, m1)
            },
            Outcome::Value(_, _) => Outcome::Unknown,
            o => o,
        },
        Node::While => if fuel == 0 {
            Outcome::Unknown
        } else {
            match run_at(host, t.kids, 0, m, fuel) {
                Outcome::Value(Datum::Bool(true), m1) => match run_at(host, t.kids, 1, m1, fuel) {
                    Outcome::Value(_, m2) => run(host, t, m2, (fuel - 1) as nat),
                    Outcome::Continued(m2) => run(host, t, m2, (fuel - 1) as nat),
                    Outcome::Broken(_, m2) => Outcome::Value(Datum::Unit, m2),
                    o => o,
                },
                Outcome::Value(Datum::Bool(false), m1) => Outcome::Value(Datum::Unit, m1),
                Outcome::Value(_, _) => Outcome::Unknown,
                o => o,
            }
        },
        Node::Loop => if fuel == 0 {
            Outcome::Unknown
        } else {
            match run_at(host, t.kids, 0, m, fuel) {
                Outcome::Value(_, m1) => run(host, t, m1, (fuel - 1) as nat),
                Outcome::Continued(m1) => run(host, t, m1, (fuel - 1) as nat),
                Outcome::Broken(d, m1) => Outcome::Value(d, m1),
                o => o,
            }
        },
        Node::Break => if t.kids.len() == 0 {
            Outcome::Broken(Datum::Unit, m)
        } else {
            match run_at(host, t.kids, 0, m, fuel) {
                Outcome::Value(d, m1) => Outcome::Broken(d, m1),
                o => o,
            }
        },
        Node::Continue => Outcome::Continued(m),
        Node::Return => if t.kids.len() == 0 {
            Outcome::Returned(Datum::Unit, m)
        } else {
            match run_at(host, t.kids, 0, m, fuel) {
                Outcome::Value(d, m1) => Outcome::Returned(d, m1),
                o => o,
            }
        },
        Node::Call(s, _, _, by_value) => if by_value {
            Outcome::Unknown
        } else {
            match run_all(host, t.kids, m, fuel) {
                Outcomes::Values(vs, m1) => Outcome::Value((host.call)(s, vs), m1),
                Outcomes::Cut(o) => o,
            }
        },
        Node::MethodCall(name, routine, _, _) => match run_all(host, t.kids, m, fuel) {
            Outcomes::Values(vs, m1) => Outcome::Value((host.method)(name, routine, vs), m1),
            Outcomes::Cut(o) => o,
        },
        Node::Interp(texts, trailing) => match run_all(host, t.kids, m, fuel) {
            Outcomes::Values(vs, m1) => Outcome::Value(
                Datum::Text(woven(host, texts, vs) + trailing),
                m1,
            ),
            Outcomes::Cut(o) => o,
        },
        Node::Tuple => match run_all(host, t.kids, m, fuel) {
            Outcomes::Values(vs, m1) => Outcome::Value(Datum::Tuple(vs), m1),
            Outcomes::Cut(o) => o,
        },
        Node::ListLit => match run_all(host, t.kids, m, fuel) {
            Outcomes::Values(vs, m1) => Outcome::Value(Datum::List(vs), m1),
            Outcomes::Cut(o) => o,
        },
        Node::TupleIndex(i) => match run_at(host, t.kids, 0, m, fuel) {
            Outcome::Value(Datum::Tuple(vs), m1) => if i < vs.len() {
                Outcome::Value(vs[i as int], m1)
            } else {
                Outcome::Unknown
            },
            Outcome::Value(_, _) => Outcome::Unknown,
            o => o,
        },
        Node::Var(s, _) => match run_at(host, t.kids, 0, m, fuel) {
            Outcome::Value(d, m1) => Outcome::Value(Datum::Unit, m1.insert(s, d)),
            o => o,
        },
        Node::Assign(s, _, op) => match run_at(host, t.kids, 0, m, fuel) {
            Outcome::Value(d, m1) => if m1.contains_key(s) {
                match assignment_means(op, m1[s], d) {
                    Some(x) => Outcome::Value(Datum::Unit, m1.insert(s, x)),
                    None => Outcome::Unknown,
                }
            } else {
                Outcome::Unknown
            },
            o => o,
        },
        Node::ExprStmt => without_value(run_at(host, t.kids, 0, m, fuel)),
        _ => Outcome::Unknown,
    }
}

pub open spec fn run_at(host: Host, ts: Seq<Tree>, i: int, m: Memory, fuel: nat) -> Outcome
    decreases fuel, ts, 2nat,
{
    if 0 <= i < ts.len() {
        run(host, ts[i], m, fuel)
    } else {
        Outcome::Unknown
    }
}

/// One after the other, for the value of each.
pub open spec fn run_all(host: Host, ts: Seq<Tree>, m: Memory, fuel: nat) -> Outcomes
    decreases fuel, ts, 0nat,
{
    if ts.len() == 0 {
        Outcomes::Values(Seq::empty(), m)
    } else {
        match run_all(host, ts.drop_last(), m, fuel) {
            Outcomes::Values(vs, m1) => match run(host, ts.last(), m1, fuel) {
                Outcome::Value(d, m2) => Outcomes::Values(vs.push(d), m2),
                o => Outcomes::Cut(o),
            },
            cut => cut,
        }
    }
}

/// One after the other, for the value of the last.
pub open spec fn run_in_order(host: Host, ts: Seq<Tree>, m: Memory, fuel: nat) -> Outcome
    decreases fuel, ts, 0nat,
{
    if ts.len() == 0 {
        Outcome::Value(Datum::Unit, m)
    } else {
        match run_in_order(host, ts.drop_last(), m, fuel) {
            Outcome::Value(_, m1) => run(host, ts.last(), m1, fuel),
            o => o,
        }
    }
}

// ---------------------------------------------------------------------------
// The source
// ---------------------------------------------------------------------------

/// What running an expression comes to, by what is written.
pub open spec fn does(env: LowerEnv, host: Host, e: Expr, m: Memory, fuel: nat) -> Outcome
    decreases fuel, e, 1nat,
{
    match e.kind {
        ExprKind::Literal(Some(tok)) => match denoted(tok) {
            Some(l) => Outcome::Value(lit_datum(l), m),
            None => Outcome::Unknown,
        },
        ExprKind::Interp(parts) => do_parts(env, host, parts@, m, fuel),
        ExprKind::Path(Some(n)) => match env.symbol_at(n.range) {
            Some(s) => match env.variant_of(s) {
                Some((d, i)) => if env.has_payload(d, i) {
                    Outcome::Unknown
                } else {
                    Outcome::Value(Datum::Variant(d, i as u32, Seq::empty()), m)
                },
                None => if m.contains_key(s) && is_variable(env, s) {
                    Outcome::Value(m[s], m)
                } else {
                    Outcome::Unknown
                },
            },
            None => Outcome::Unknown,
        },
        ExprKind::Bin { lhs: Some(l), op: Some(op), rhs: Some(r) } => match op {
            // The right side is only run where the left one does not decide.
            BinToken::Pipe2 => match does(env, host, *l, m, fuel) {
                Outcome::Value(Datum::Bool(true), m1) => Outcome::Value(Datum::Bool(true), m1),
                Outcome::Value(Datum::Bool(false), m1) => does(env, host, *r, m1, fuel),
                Outcome::Value(_, _) => Outcome::Unknown,
                o => o,
            },
            BinToken::Amp2 => match does(env, host, *l, m, fuel) {
                Outcome::Value(Datum::Bool(true), m1) => does(env, host, *r, m1, fuel),
                Outcome::Value(Datum::Bool(false), m1) => Outcome::Value(Datum::Bool(false), m1),
                Outcome::Value(_, _) => Outcome::Unknown,
                o => o,
            },
            _ => match does(env, host, *l, m, fuel) {
                Outcome::Value(a, m1) => match does(env, host, *r, m1, fuel) {
                    Outcome::Value(b, m2) => given(token_means(op, a, b), m2),
                    o => o,
                },
                o => o,
            },
        },
        ExprKind::Unary { op: Some(op), operand: Some(x) } => match does(env, host, *x, m, fuel) {
            Outcome::Value(a, m1) => given(
                match op {
                    UnaryToken::Bang => opposite(Some(a)),
                    UnaryToken::Minus => negative(a),
                },
                m1,
            ),
            o => o,
        },
        ExprKind::Range { start: Some(a), end: Some(b), inclusive } => match does(
            env,
            host,
            *a,
            m,
            fuel,
        ) {
            Outcome::Value(Datum::Int(start), m1) => match does(env, host, *b, m1, fuel) {
                Outcome::Value(Datum::Int(end), m2) => Outcome::Value(
                    Datum::Range(start, end, inclusive),
                    m2,
                ),
                Outcome::Value(_, _) => Outcome::Unknown,
                o => o,
            },
            Outcome::Value(_, _) => Outcome::Unknown,
            o => o,
        },
        ExprKind::Paren(Some(x)) => does(env, host, *x, m, fuel),
        ExprKind::Block(b) => do_block(env, host, b, m, fuel),
        ExprKind::If { cond: Some(c), then_branch: Some(t), else_branch } => match does(
            env,
            host,
            *c,
            m,
            fuel,
        ) {
            Outcome::Value(Datum::Bool(true), m1) => {
                let o = do_block(env, host, t, m1, fuel);
                if else_branch is Some {
                    o
                } else {
                    without_value(o)
                }
            },
            Outcome::Value(Datum::Bool(false), m1) => match else_branch {
                Some(f) => does(env, host, *f, m1, fuel),
                None => Outcome::Value(Datum::Unit, m1),
            },
            Outcome::Value(_, _) => Outcome::Unknown,
            o => o,
        },
        ExprKind::While { cond: Some(c), body: Some(b) } => if fuel == 0 {
            Outcome::Unknown
        } else {
            match does(env, host, *c, m, fuel) {
                Outcome::Value(Datum::Bool(true), m1) => match do_block(env, host, b, m1, fuel) {
                    Outcome::Value(_, m2) => does(env, host, e, m2, (fuel - 1) as nat),
                    Outcome::Continued(m2) => does(env, host, e, m2, (fuel - 1) as nat),
                    Outcome::Broken(_, m2) => Outcome::Value(Datum::Unit, m2),
                    o => o,
                },
                Outcome::Value(Datum::Bool(false), m1) => Outcome::Value(Datum::Unit, m1),
                Outcome::Value(_, _) => Outcome::Unknown,
                o => o,
            }
        },
        ExprKind::Loop { body: Some(b) } => if fuel == 0 {
            Outcome::Unknown
        } else {
            match do_block(env, host, b, m, fuel) {
                Outcome::Value(_, m1) => does(env, host, e, m1, (fuel - 1) as nat),
                Outcome::Continued(m1) => does(env, host, e, m1, (fuel - 1) as nat),
                Outcome::Broken(d, m1) => Outcome::Value(d, m1),
                o => o,
            }
        },
        ExprKind::Break(value) => match value {
            Some(x) => match does(env, host, *x, m, fuel) {
                Outcome::Value(d, m1) => Outcome::Broken(d, m1),
                o => o,
            },
            None => Outcome::Broken(Datum::Unit, m),
        },
        ExprKind::Continue => Outcome::Continued(m),
        ExprKind::Return(value) => match value {
            Some(x) => match does(env, host, *x, m, fuel) {
                Outcome::Value(d, m1) => Outcome::Returned(d, m1),
                o => o,
            },
            None => Outcome::Returned(Datum::Unit, m),
        },
        ExprKind::Call { callee: Some(n), args, .. } => match env.symbol_at(n.range) {
            Some(s) => match do_all(env, host, args@, m, fuel) {
                Outcomes::Values(vs, m1) => Outcome::Value(
                    match env.variant_of(s) {
                        Some((d, i)) => Datum::Variant(d, i as u32, vs),
                        None => (host.call)(s, vs),
                    },
                    m1,
                ),
                Outcomes::Cut(o) => o,
            },
            None => Outcome::Unknown,
        },
        ExprKind::MethodCall { receiver: Some(r), name: Some(n), args } => do_method(
            host,
            n.text@,
            at(env.method_refs, n.range),
            does(env, host, *r, m, fuel),
            |m1: Memory| do_all(env, host, args@, m1, fuel),
        ),
        ExprKind::Index { receiver: Some(r), indices } => do_method(
            host,
            "[]"@,
            at(env.method_refs, e.range),
            does(env, host, *r, m, fuel),
            |m1: Memory| do_all(env, host, indices@, m1, fuel),
        ),
        ExprKind::Tuple(es) => match do_all(env, host, es@, m, fuel) {
            Outcomes::Values(vs, m1) => Outcome::Value(Datum::Tuple(vs), m1),
            Outcomes::Cut(o) => o,
        },
        ExprKind::List(es) => match do_all(env, host, es@, m, fuel) {
            Outcomes::Values(vs, m1) => Outcome::Value(Datum::List(vs), m1),
            Outcomes::Cut(o) => o,
        },
        ExprKind::TupleIndex { receiver: Some(r), index: Some(i) } => match does(
            env,
            host,
            *r,
            m,
            fuel,
        ) {
            Outcome::Value(Datum::Tuple(vs), m1) => if i < vs.len() && i <= u32::MAX {
                Outcome::Value(vs[i as int], m1)
            } else {
                Outcome::Unknown
            },
            Outcome::Value(_, _) => Outcome::Unknown,
            o => if i <= u32::MAX {
                o
            } else {
                Outcome::Unknown
            },
        },
        _ => Outcome::Unknown,
    }
}

/// Whether a symbol stands for a value that is kept somewhere.
pub open spec fn is_variable(env: LowerEnv, s: SymbolId) -> bool {
    match lookup(env.names, s) {
        Some(v) => v.kind != SymbolKind::Fn,
        None => true,
    }
}

/// The method that a catalog row describes, called with the receiver first and
/// then the arguments.
pub open spec fn do_method(
    host: Host,
    name: Seq<char>,
    row: Option<MethodRef>,
    receiver: Outcome,
    args: spec_fn(Memory) -> Outcomes,
) -> Outcome {
    match row {
        None => Outcome::Unknown,
        Some(row) => match receiver {
            Outcome::Value(r, m1) => match args(m1) {
                Outcomes::Values(vs, m2) => Outcome::Value(
                    (host.method)(
                        name,
                        match row.entry.lowering {
                            MethodLowering::RuntimeSymbol(s) => Some(s),
                            MethodLowering::ScalarPrimitive(s) => Some(s),
                            MethodLowering::Intrinsic(_) => None,
                        },
                        seq![r] + vs,
                    ),
                    m2,
                ),
                Outcomes::Cut(o) => o,
            },
            o => o,
        },
    }
}

/// One after the other, for the value of each.
pub open spec fn do_all(env: LowerEnv, host: Host, es: Seq<Expr>, m: Memory, fuel: nat) -> Outcomes
    decreases fuel, es, 0nat,
{
    if es.len() == 0 {
        Outcomes::Values(Seq::empty(), m)
    } else {
        match do_all(env, host, es.drop_last(), m, fuel) {
            Outcomes::Values(vs, m1) => match does(env, host, es.last(), m1, fuel) {
                Outcome::Value(d, m2) => Outcomes::Values(vs.push(d), m2),
                o => Outcomes::Cut(o),
            },
            cut => cut,
        }
    }
}

/// The parts of an interpolated text: what is written stands as it is, and a hole
/// holds its value.
pub open spec fn do_parts(
    env: LowerEnv,
    host: Host,
    parts: Seq<InterpPart>,
    m: Memory,
    fuel: nat,
) -> Outcome
    decreases fuel, parts, 0nat,
{
    if parts.len() == 0 {
        Outcome::Value(Datum::Text(Seq::empty()), m)
    } else {
        match do_parts(env, host, parts.drop_last(), m, fuel) {
            Outcome::Value(Datum::Text(s), m1) => match parts.last() {
                InterpPart::Fragment(f) => Outcome::Value(Datum::Text(s + f@), m1),
                InterpPart::Hole(e) => match does(env, host, e, m1, fuel) {
                    Outcome::Value(d, m2) => Outcome::Value(Datum::Text(s + (host.show)(d)), m2),
                    o => o,
                },
            },
            o => o,
        }
    }
}

pub open spec fn do_block(env: LowerEnv, host: Host, b: Block, m: Memory, fuel: nat) -> Outcome
    decreases fuel, b, 0nat,
{
    do_stmts(env, host, b.stmts@, m, fuel)
}

/// One statement after the other. The value is that of the last, where it is an
/// expression.
pub open spec fn do_stmts(
    env: LowerEnv,
    host: Host,
    stmts: Seq<Stmt>,
    m: Memory,
    fuel: nat,
) -> Outcome
    decreases fuel, stmts, 0nat,
{
    if stmts.len() == 0 {
        Outcome::Value(Datum::Unit, m)
    } else {
        match do_stmts(env, host, stmts.drop_last(), m, fuel) {
            Outcome::Value(_, m1) => do_stmt(env, host, stmts.last(), m1, fuel),
            o => o,
        }
    }
}

pub open spec fn do_stmt(env: LowerEnv, host: Host, s: Stmt, m: Memory, fuel: nat) -> Outcome
    decreases fuel, s, 0nat,
{
    match s.kind {
        StmtKind::Expr(Some(e)) => does(env, host, *e, m, fuel),
        StmtKind::Expr(None) => Outcome::Value(Datum::Unit, m),
        StmtKind::Var { name: Some(n), init: Some(e), .. } => match at(env.decls, n.range) {
            Some(s) => match does(env, host, *e, m, fuel) {
                Outcome::Value(d, m1) => Outcome::Value(Datum::Unit, m1.insert(s, d)),
                o => o,
            },
            None => Outcome::Unknown,
        },
        StmtKind::Var { name: None, init: Some(e), .. } => without_value(
            does(env, host, *e, m, fuel),
        ),
        StmtKind::Assign { name: Some(n), op: Some(op), value: Some(e) } => match env.symbol_at(
            n.range,
        ) {
            Some(s) => match does(env, host, *e, m, fuel) {
                Outcome::Value(d, m1) => if m1.contains_key(s) {
                    match store_means(op, m1[s], d) {
                        Some(x) => Outcome::Value(Datum::Unit, m1.insert(s, x)),
                        None => Outcome::Unknown,
                    }
                } else {
                    Outcome::Unknown
                },
                o => o,
            },
            None => Outcome::Unknown,
        },
        StmtKind::Other => Outcome::Value(Datum::Unit, m),
        _ => Outcome::Unknown,
    }
}

// ---------------------------------------------------------------------------
// Lowering keeps the meaning
// ---------------------------------------------------------------------------

proof fn lemma_at(host: Host, ts: Seq<Tree>, i: int, m: Memory, fuel: nat)
    requires
        0 <= i < ts.len(),
    ensures
        run_at(host, ts, i, m, fuel) == run(host, ts[i], m, fuel),
{
}

proof fn lemma_first_of_all(host: Host, t: Tree, ts: Seq<Tree>, m: Memory, fuel: nat)
    ensures
        run_all(host, seq![t] + ts, m, fuel) == match run(host, t, m, fuel) {
            Outcome::Value(d, m1) => match run_all(host, ts, m1, fuel) {
                Outcomes::Values(vs, m2) => Outcomes::Values(seq![d] + vs, m2),
                cut => cut,
            },
            o => Outcomes::Cut(o),
        },
    decreases ts.len(),
{
    let all = seq![t] + ts;
    if ts.len() == 0 {
        assert(all.drop_last() =~= Seq::empty());
        assert(all.last() == t);
        assert(run_all(host, Seq::empty(), m, fuel) == Outcomes::Values(Seq::empty(), m));
        if let Outcome::Value(d, m1) = run(host, t, m, fuel) {
            assert(run_all(host, ts, m1, fuel) == Outcomes::Values(Seq::empty(), m1));
            assert(Seq::empty().push(d) =~= seq![d] + Seq::empty());
        }
    } else {
        lemma_first_of_all(host, t, ts.drop_last(), m, fuel);
        assert(all.drop_last() =~= seq![t] + ts.drop_last());
        assert(all.last() == ts.last());
        if let Outcome::Value(d, m1) = run(host, t, m, fuel) {
            if let Outcomes::Values(vs, m2) = run_all(host, ts.drop_last(), m1, fuel) {
                if let Outcome::Value(x, _) = run(host, ts.last(), m2, fuel) {
                    assert((seq![d] + vs).push(x) =~= seq![d] + vs.push(x));
                }
            }
        }
    }
}

proof fn lemma_one_more(host: Host, ts: Seq<Tree>, t: Tree, m: Memory, fuel: nat)
    ensures
        run_in_order(host, ts.push(t), m, fuel) == match run_in_order(host, ts, m, fuel) {
            Outcome::Value(_, m1) => run(host, t, m1, fuel),
            o => o,
        },
        run_all(host, ts.push(t), m, fuel) == match run_all(host, ts, m, fuel) {
            Outcomes::Values(vs, m1) => match run(host, t, m1, fuel) {
                Outcome::Value(d, m2) => Outcomes::Values(vs.push(d), m2),
                o => Outcomes::Cut(o),
            },
            cut => cut,
        },
{
    assert(ts.push(t).drop_last() =~= ts);
}

/// Where the source says what happens, the lowered expression does that: the same
/// value in the same memory, or the same way out.
pub proof fn law_lowering_keeps_the_meaning(
    env: LowerEnv,
    host: Host,
    e: Expr,
    st: LowerState,
    m: Memory,
    fuel: nat,
)
    requires
        !(does(env, host, e, m, fuel) is Unknown),
    ensures
        run(host, lower_expr(env, e, st).0, m, fuel) == does(env, host, e, m, fuel),
    decreases fuel, e, 2nat,
{
    match e.kind {
        ExprKind::Literal(_) => lemma_leaf(env, host, e, st, m, fuel),
        ExprKind::Path(_) => lemma_leaf(env, host, e, st, m, fuel),
        ExprKind::Continue => lemma_leaf(env, host, e, st, m, fuel),
        ExprKind::Paren(_) => lemma_wrapped(env, host, e, st, m, fuel),
        ExprKind::Block(_) => lemma_wrapped(env, host, e, st, m, fuel),
        ExprKind::Interp(_) => lemma_interp(env, host, e, st, m, fuel),
        ExprKind::Bin { .. } => lemma_bin(env, host, e, st, m, fuel),
        ExprKind::Unary { .. } => lemma_unary(env, host, e, st, m, fuel),
        ExprKind::Range { .. } => lemma_range(env, host, e, st, m, fuel),
        ExprKind::If { .. } => lemma_if(env, host, e, st, m, fuel),
        ExprKind::While { .. } => lemma_while(env, host, e, st, m, fuel),
        ExprKind::Loop { .. } => lemma_loop(env, host, e, st, m, fuel),
        ExprKind::Break(_) => lemma_break(env, host, e, st, m, fuel),
        ExprKind::Return(_) => lemma_return(env, host, e, st, m, fuel),
        ExprKind::Call { .. } => lemma_call(env, host, e, st, m, fuel),
        ExprKind::MethodCall { .. } => lemma_method_call(env, host, e, st, m, fuel),
        ExprKind::Index { .. } => lemma_index(env, host, e, st, m, fuel),
        ExprKind::Tuple(_) => lemma_tuple(env, host, e, st, m, fuel),
        ExprKind::List(_) => lemma_list_lit(env, host, e, st, m, fuel),
        ExprKind::TupleIndex { .. } => lemma_tuple_index(env, host, e, st, m, fuel),
        _ => {
            assert(does(env, host, e, m, fuel) is Unknown);
        },
    }
}

proof fn lemma_leaf(env: LowerEnv, host: Host, e: Expr, st: LowerState, m: Memory, fuel: nat)
    requires
        e.kind is Literal || e.kind is Path || e.kind is Continue,
        !(does(env, host, e, m, fuel) is Unknown),
    ensures
        run(host, lower_expr(env, e, st).0, m, fuel) == does(env, host, e, m, fuel),
    decreases fuel, e, 1nat,
{
    assert(run_all(host, Seq::empty(), m, fuel) == Outcomes::Values(Seq::empty(), m));
}

proof fn lemma_wrapped(env: LowerEnv, host: Host, e: Expr, st: LowerState, m: Memory, fuel: nat)
    requires
        e.kind is Paren || e.kind is Block,
        !(does(env, host, e, m, fuel) is Unknown),
    ensures
        run(host, lower_expr(env, e, st).0, m, fuel) == does(env, host, e, m, fuel),
    decreases fuel, e, 1nat,
{
    match e.kind {
        ExprKind::Paren(Some(x)) => law_lowering_keeps_the_meaning(env, host, *x, st, m, fuel),
        ExprKind::Block(b) => lemma_block(env, host, b, st, m, fuel),
        _ => {},
    }
}

proof fn lemma_interp(env: LowerEnv, host: Host, e: Expr, st: LowerState, m: Memory, fuel: nat)
    requires
        e.kind is Interp,
        !(does(env, host, e, m, fuel) is Unknown),
    ensures
        run(host, lower_expr(env, e, st).0, m, fuel) == does(env, host, e, m, fuel),
    decreases fuel, e, 1nat,
{
    if let ExprKind::Interp(parts) = e.kind {
        let s1 = node_ty(env, e, st).1;
        assert(lower_expr(env, e, st) == lower_interp(env, e, st));
        lemma_parts(env, host, parts@, s1, m, fuel);
    }
}

proof fn lemma_unary(env: LowerEnv, host: Host, e: Expr, st: LowerState, m: Memory, fuel: nat)
    requires
        e.kind is Unary,
        !(does(env, host, e, m, fuel) is Unknown),
    ensures
        run(host, lower_expr(env, e, st).0, m, fuel) == does(env, host, e, m, fuel),
    decreases fuel, e, 1nat,
{
    if let ExprKind::Unary { op: Some(op), operand: Some(x) } = e.kind {
        let t = lower_expr(env, e, st).0;
        assert(lower_opt(env, Some(x), st) == lower_expr(env, *x, st));
        assert(t.kids[0] == lower_expr(env, *x, st).0);
        lemma_at(host, t.kids, 0, m, fuel);
        law_lowering_keeps_the_meaning(env, host, *x, st, m, fuel);
    }
}

proof fn lemma_break(env: LowerEnv, host: Host, e: Expr, st: LowerState, m: Memory, fuel: nat)
    requires
        e.kind is Break,
        !(does(env, host, e, m, fuel) is Unknown),
    ensures
        run(host, lower_expr(env, e, st).0, m, fuel) == does(env, host, e, m, fuel),
    decreases fuel, e, 1nat,
{
    if let ExprKind::Break(value) = e.kind {
        let t = lower_expr(env, e, st).0;
        if let Some(x) = value {
            assert(lower_value(env, Some(x), st).0 == seq![lower_expr(env, *x, st).0]);
            assert(t.kids[0] == lower_expr(env, *x, st).0);
            lemma_at(host, t.kids, 0, m, fuel);
            law_lowering_keeps_the_meaning(env, host, *x, st, m, fuel);
        } else {
            assert(lower_value(env, None, st).0.len() == 0);
        }
    }
}

proof fn lemma_return(env: LowerEnv, host: Host, e: Expr, st: LowerState, m: Memory, fuel: nat)
    requires
        e.kind is Return,
        !(does(env, host, e, m, fuel) is Unknown),
    ensures
        run(host, lower_expr(env, e, st).0, m, fuel) == does(env, host, e, m, fuel),
    decreases fuel, e, 1nat,
{
    if let ExprKind::Return(value) = e.kind {
        let t = lower_expr(env, e, st).0;
        if let Some(x) = value {
            assert(lower_value(env, Some(x), st).0 == seq![lower_expr(env, *x, st).0]);
            assert(t.kids[0] == lower_expr(env, *x, st).0);
            lemma_at(host, t.kids, 0, m, fuel);
            law_lowering_keeps_the_meaning(env, host, *x, st, m, fuel);
        } else {
            assert(lower_value(env, None, st).0.len() == 0);
        }
    }
}

proof fn lemma_method_call(env: LowerEnv, host: Host, e: Expr, st: LowerState, m: Memory, fuel: nat)
    requires
        e.kind is MethodCall,
        !(does(env, host, e, m, fuel) is Unknown),
    ensures
        run(host, lower_expr(env, e, st).0, m, fuel) == does(env, host, e, m, fuel),
    decreases fuel, e, 1nat,
{
    if let ExprKind::MethodCall { receiver: Some(r), name: Some(n), args } = e.kind {
        assert(lower_expr(env, e, st) == lower_method_call(env, e, st));
        assert(lower_bound(env, Some(r), e.range.pair(), st) == lower_expr(env, *r, st));
        law_lowering_keeps_the_meaning(env, host, *r, st, m, fuel);
        lemma_method(env, host, *r, args@, st, m, fuel);
    }
}

proof fn lemma_index(env: LowerEnv, host: Host, e: Expr, st: LowerState, m: Memory, fuel: nat)
    requires
        e.kind is Index,
        !(does(env, host, e, m, fuel) is Unknown),
    ensures
        run(host, lower_expr(env, e, st).0, m, fuel) == does(env, host, e, m, fuel),
    decreases fuel, e, 1nat,
{
    if let ExprKind::Index { receiver: Some(r), indices } = e.kind {
        assert(lower_expr(env, e, st) == lower_index(env, e, st));
        law_lowering_keeps_the_meaning(env, host, *r, st, m, fuel);
        lemma_method(env, host, *r, indices@, st, m, fuel);
    }
}

proof fn lemma_tuple(env: LowerEnv, host: Host, e: Expr, st: LowerState, m: Memory, fuel: nat)
    requires
        e.kind is Tuple,
        !(does(env, host, e, m, fuel) is Unknown),
    ensures
        run(host, lower_expr(env, e, st).0, m, fuel) == does(env, host, e, m, fuel),
    decreases fuel, e, 1nat,
{
    if let ExprKind::Tuple(es) = e.kind {
        lemma_list(env, host, es@, st, m, fuel);
    }
}

proof fn lemma_list_lit(env: LowerEnv, host: Host, e: Expr, st: LowerState, m: Memory, fuel: nat)
    requires
        e.kind is List,
        !(does(env, host, e, m, fuel) is Unknown),
    ensures
        run(host, lower_expr(env, e, st).0, m, fuel) == does(env, host, e, m, fuel),
    decreases fuel, e, 1nat,
{
    if let ExprKind::List(es) = e.kind {
        lemma_list(env, host, es@, st, m, fuel);
    }
}

proof fn lemma_tuple_index(env: LowerEnv, host: Host, e: Expr, st: LowerState, m: Memory, fuel: nat)
    requires
        e.kind is TupleIndex,
        !(does(env, host, e, m, fuel) is Unknown),
    ensures
        run(host, lower_expr(env, e, st).0, m, fuel) == does(env, host, e, m, fuel),
    decreases fuel, e, 1nat,
{
    if let ExprKind::TupleIndex { receiver: Some(r), index: Some(i) } = e.kind {
        let t = lower_expr(env, e, st).0;
        if i <= u32::MAX {
            assert(t.kids[0] == lower_expr(env, *r, st).0);
            lemma_at(host, t.kids, 0, m, fuel);
            law_lowering_keeps_the_meaning(env, host, *r, st, m, fuel);
        }
    }
}

proof fn lemma_list(
    env: LowerEnv,
    host: Host,
    es: Seq<Expr>,
    st: LowerState,
    m: Memory,
    fuel: nat,
)
    requires
        do_all(env, host, es, m, fuel) != Outcomes::Cut(Outcome::Unknown),
    ensures
        run_all(host, lower_list(env, es, st).0, m, fuel) == do_all(env, host, es, m, fuel),
    decreases fuel, es, 0nat,
{
    if es.len() > 0 {
        let (ts, before) = lower_list(env, es.drop_last(), st);
        lemma_list(env, host, es.drop_last(), st, m, fuel);
        lemma_one_more(host, ts, lower_expr(env, es.last(), before).0, m, fuel);
        if let Outcomes::Values(vs, m1) = do_all(env, host, es.drop_last(), m, fuel) {
            law_lowering_keeps_the_meaning(env, host, es.last(), before, m1, fuel);
        }
    }
}

/// A receiver and then arguments.
proof fn lemma_method(
    env: LowerEnv,
    host: Host,
    r: Expr,
    args: Seq<Expr>,
    st: LowerState,
    m: Memory,
    fuel: nat,
)
    requires
        run(host, lower_expr(env, r, st).0, m, fuel) == does(env, host, r, m, fuel),
        does(env, host, r, m, fuel) matches Outcome::Value(_, m1) ==> do_all(
            env,
            host,
            args,
            m1,
            fuel,
        ) != Outcomes::Cut(Outcome::Unknown),
    ensures
        ({
            let (t, s1) = lower_expr(env, r, st);
            run_all(host, seq![t] + lower_list(env, args, s1).0, m, fuel) == match does(
                env,
                host,
                r,
                m,
                fuel,
            ) {
                Outcome::Value(d, m1) => match do_all(env, host, args, m1, fuel) {
                    Outcomes::Values(vs, m2) => Outcomes::Values(seq![d] + vs, m2),
                    cut => cut,
                },
                o => Outcomes::Cut(o),
            }
        }),
    decreases fuel, args, 1nat,
{
    let (t, s1) = lower_expr(env, r, st);
    lemma_first_of_all(host, t, lower_list(env, args, s1).0, m, fuel);
    if let Outcome::Value(_, m1) = does(env, host, r, m, fuel) {
        lemma_list(env, host, args, s1, m1, fuel);
    }
}

proof fn lemma_call(env: LowerEnv, host: Host, e: Expr, st: LowerState, m: Memory, fuel: nat)
    requires
        e.kind is Call,
        !(does(env, host, e, m, fuel) is Unknown),
    ensures
        run(host, lower_expr(env, e, st).0, m, fuel) == does(env, host, e, m, fuel),
    decreases fuel, e, 1nat,
{
    if let ExprKind::Call { callee: Some(n), args, .. } = e.kind {
        lemma_list(env, host, args@, st, m, fuel);
        let ts = lower_list(env, args@, st).0;
        assert(ts + Seq::<Tree>::empty() =~= ts);
        assert(lower_expr(env, e, st) == lower_call(env, e, st));
        assert(lower_call(env, e, st).0.kids =~= ts);
    }
}

proof fn lemma_parts(
    env: LowerEnv,
    host: Host,
    parts: Seq<InterpPart>,
    st: LowerState,
    m: Memory,
    fuel: nat,
)
    requires
        !(do_parts(env, host, parts, m, fuel) is Unknown),
    ensures
        ({
            let (texts, holes, pending, _) = lower_parts(env, parts, st);
            &&& texts.len() == holes.len()
            &&& match do_parts(env, host, parts, m, fuel) {
                Outcome::Value(d, m1) => {
                    &&& run_all(host, holes, m, fuel) matches Outcomes::Values(vs, m2)
                    &&& m2 == m1
                    &&& vs.len() == texts.len()
                    &&& d == Datum::Text(woven(host, texts, vs) + pending)
                },
                o => run_all(host, holes, m, fuel) == Outcomes::Cut(o),
            }
        }),
    decreases fuel, parts, 0nat,
{
    if parts.len() == 0 {
        assert(Seq::<char>::empty() + Seq::<char>::empty() =~= Seq::<char>::empty());
    } else {
        let (texts, holes, pending, before) = lower_parts(env, parts.drop_last(), st);
        lemma_parts(env, host, parts.drop_last(), st, m, fuel);
        match parts.last() {
            InterpPart::Fragment(f) => {
                if let Outcomes::Values(vs, _) = run_all(host, holes, m, fuel) {
                    assert(woven(host, texts, vs) + pending + f@ =~= woven(host, texts, vs) + (
                    pending + f@));
                }
            },
            InterpPart::Hole(x) => {
                let t = lower_expr(env, x, before).0;
                lemma_one_more(host, holes, t, m, fuel);
                if let Outcomes::Values(vs, m1) = run_all(host, holes, m, fuel) {
                    law_lowering_keeps_the_meaning(env, host, x, before, m1, fuel);
                    if let Outcome::Value(d, _) = does(env, host, x, m1, fuel) {
                        assert(texts.push(pending).drop_last() =~= texts);
                        assert(vs.push(d).drop_last() =~= vs);
                        assert(woven(host, texts.push(pending), vs.push(d)) + Seq::<char>::empty()
                            =~= woven(host, texts, vs) + pending + (host.show)(d));
                    }
                }
            },
        }
    }
}

proof fn lemma_bin(env: LowerEnv, host: Host, e: Expr, st: LowerState, m: Memory, fuel: nat)
    requires
        e.kind is Bin,
        !(does(env, host, e, m, fuel) is Unknown),
    ensures
        run(host, lower_expr(env, e, st).0, m, fuel) == does(env, host, e, m, fuel),
    decreases fuel, e, 1nat,
{
    if let ExprKind::Bin { lhs: Some(l), op: Some(op), rhs: Some(r) } = e.kind {
        let (x, s1) = lower_expr(env, *l, st);
        let y = lower_expr(env, *r, s1).0;
        let t = lower_expr(env, e, st).0;
        assert(lower_opt(env, Some(l), st) == lower_expr(env, *l, st));
        assert(lower_opt(env, Some(r), s1) == lower_expr(env, *r, s1));
        assert(t.kids == seq![x, y]);
        law_lowering_keeps_the_meaning(env, host, *l, st, m, fuel);
        lemma_at(host, t.kids, 0, m, fuel);
        if let Outcome::Value(a, m1) = does(env, host, *l, m, fuel) {
            lemma_at(host, t.kids, 1, m1, fuel);
            if !(does(env, host, *r, m1, fuel) is Unknown) {
                law_lowering_keeps_the_meaning(env, host, *r, s1, m1, fuel);
            }
            if let Outcome::Value(b, _) = does(env, host, *r, m1, fuel) {
                law_operators_keep_their_meaning(op, a, b);
            }
        }
    }
}

proof fn lemma_range(env: LowerEnv, host: Host, e: Expr, st: LowerState, m: Memory, fuel: nat)
    requires
        e.kind is Range,
        !(does(env, host, e, m, fuel) is Unknown),
    ensures
        run(host, lower_expr(env, e, st).0, m, fuel) == does(env, host, e, m, fuel),
    decreases fuel, e, 1nat,
{
    if let ExprKind::Range { start: Some(a), end: Some(b), .. } = e.kind {
        let s1 = node_ty(env, e, st).1;
        let (x, s2) = lower_expr(env, *a, s1);
        let t = lower_expr(env, e, st).0;
        assert(lower_bound(env, Some(a), e.range.pair(), s1) == lower_expr(env, *a, s1));
        assert(lower_bound(env, Some(b), e.range.pair(), s2) == lower_expr(env, *b, s2));
        assert(t.kids == seq![x, lower_expr(env, *b, s2).0]);
        law_lowering_keeps_the_meaning(env, host, *a, s1, m, fuel);
        lemma_at(host, t.kids, 0, m, fuel);
        if let Outcome::Value(_, m1) = does(env, host, *a, m, fuel) {
            lemma_at(host, t.kids, 1, m1, fuel);
            if !(does(env, host, *b, m1, fuel) is Unknown) {
                law_lowering_keeps_the_meaning(env, host, *b, s2, m1, fuel);
            }
        }
    }
}

proof fn lemma_if(env: LowerEnv, host: Host, e: Expr, st: LowerState, m: Memory, fuel: nat)
    requires
        e.kind is If,
        !(does(env, host, e, m, fuel) is Unknown),
    ensures
        run(host, lower_expr(env, e, st).0, m, fuel) == does(env, host, e, m, fuel),
    decreases fuel, e, 1nat,
{
    if let ExprKind::If { cond: Some(c), then_branch: Some(b), else_branch } = e.kind {
        let (x, s1) = lower_expr(env, *c, st);
        let (y, s2) = lower_block(env, b, s1);
        let t = lower_expr(env, e, st).0;
        law_lowering_keeps_the_meaning(env, host, *c, st, m, fuel);
        assert(lower_opt(env, Some(c), st) == lower_expr(env, *c, st));
        assert(lower_opt_block(env, Some(b), s1) == lower_block(env, b, s1));
        assert(t.kids[0] == x);
        assert(t.kids[1] == y);
        if let Some(f) = else_branch {
            assert(lower_else(env, Some(f), s2).0 == seq![lower_as_block(env, *f, s2).0]);
            assert(t.kids.len() == 3);
            assert(t.kids[2] == lower_as_block(env, *f, s2).0);
        } else {
            assert(lower_else(env, None, s2).0 == Seq::<Tree>::empty());
            assert(t.kids.len() == 2);
        }
        lemma_at(host, t.kids, 0, m, fuel);
        if let Outcome::Value(Datum::Bool(yes), m1) = does(env, host, *c, m, fuel) {
            lemma_at(host, t.kids, 1, m1, fuel);
            if else_branch is Some {
                lemma_at(host, t.kids, 2, m1, fuel);
            }
            if yes {
                lemma_block(env, host, b, s1, m1, fuel);
            } else if let Some(f) = else_branch {
                lemma_as_block(env, host, *f, s2, m1, fuel);
            }
        }
    }
}

proof fn lemma_as_block(env: LowerEnv, host: Host, e: Expr, st: LowerState, m: Memory, fuel: nat)
    requires
        !(does(env, host, e, m, fuel) is Unknown),
    ensures
        run(host, lower_as_block(env, e, st).0, m, fuel) == does(env, host, e, m, fuel),
    decreases fuel, e, 3nat,
{
    match e.kind {
        ExprKind::Block(b) => lemma_block(env, host, b, st, m, fuel),
        _ => {
            let t = lower_expr(env, e, st).0;
            law_lowering_keeps_the_meaning(env, host, e, st, m, fuel);
            lemma_one_more(host, Seq::empty(), t, m, fuel);
        },
    }
}

proof fn lemma_while(env: LowerEnv, host: Host, e: Expr, st: LowerState, m: Memory, fuel: nat)
    requires
        e.kind is While,
        !(does(env, host, e, m, fuel) is Unknown),
    ensures
        run(host, lower_expr(env, e, st).0, m, fuel) == does(env, host, e, m, fuel),
    decreases fuel, e, 1nat,
{
    if let ExprKind::While { cond: Some(c), body: Some(b) } = e.kind {
        let (x, s1) = lower_expr(env, *c, st);
        let t = lower_expr(env, e, st).0;
        assert(lower_opt(env, Some(c), st) == lower_expr(env, *c, st));
        assert(lower_opt_block(env, Some(b), s1) == lower_block(env, b, s1));
        assert(t.kids == seq![x, lower_block(env, b, s1).0]);
        law_lowering_keeps_the_meaning(env, host, *c, st, m, fuel);
        lemma_at(host, t.kids, 0, m, fuel);
        if let Outcome::Value(Datum::Bool(true), m1) = does(env, host, *c, m, fuel) {
            lemma_at(host, t.kids, 1, m1, fuel);
            lemma_block(env, host, b, s1, m1, fuel);
            let next = match do_block(env, host, b, m1, fuel) {
                Outcome::Value(_, m2) => Some(m2),
                Outcome::Continued(m2) => Some(m2),
                _ => None,
            };
            if let Some(m2) = next {
                law_lowering_keeps_the_meaning(env, host, e, st, m2, (fuel - 1) as nat);
            }
        }
    }
}

proof fn lemma_loop(env: LowerEnv, host: Host, e: Expr, st: LowerState, m: Memory, fuel: nat)
    requires
        e.kind is Loop,
        !(does(env, host, e, m, fuel) is Unknown),
    ensures
        run(host, lower_expr(env, e, st).0, m, fuel) == does(env, host, e, m, fuel),
    decreases fuel, e, 1nat,
{
    if let ExprKind::Loop { body: Some(b) } = e.kind {
        let t = lower_expr(env, e, st).0;
        assert(lower_opt_block(env, Some(b), st) == lower_block(env, b, st));
        assert(t.kids == seq![lower_block(env, b, st).0]);
        lemma_at(host, t.kids, 0, m, fuel);
        lemma_block(env, host, b, st, m, fuel);
        let next = match do_block(env, host, b, m, fuel) {
            Outcome::Value(_, m1) => Some(m1),
            Outcome::Continued(m1) => Some(m1),
            _ => None,
        };
        if let Some(m1) = next {
            law_lowering_keeps_the_meaning(env, host, e, st, m1, (fuel - 1) as nat);
        }
    }
}

proof fn lemma_block(env: LowerEnv, host: Host, b: Block, st: LowerState, m: Memory, fuel: nat)
    requires
        !(do_block(env, host, b, m, fuel) is Unknown),
    ensures
        run(host, lower_block(env, b, st).0, m, fuel) == do_block(env, host, b, m, fuel),
    decreases fuel, b, 0nat,
{
    let (done, tail, _) = lower_stmts(env, b.stmts@, st);
    lemma_stmts(env, host, b.stmts@, st, m, fuel);
    if tail is None {
        lemma_one_more(host, done, error_tree(), m, fuel);
    }
}

proof fn lemma_stmts(
    env: LowerEnv,
    host: Host,
    stmts: Seq<Stmt>,
    st: LowerState,
    m: Memory,
    fuel: nat,
)
    requires
        !(do_stmts(env, host, stmts, m, fuel) is Unknown),
    ensures
        ({
            let (done, tail, _) = lower_stmts(env, stmts, st);
            let o = do_stmts(env, host, stmts, m, fuel);
            match tail {
                Some(t) => run_in_order(host, done.push(t), m, fuel) == o,
                None => {
                    &&& run_in_order(host, done, m, fuel) == o
                    &&& o matches Outcome::Value(d, _) ==> d == Datum::Unit
                },
            }
        }),
    decreases fuel, stmts, 0nat,
{
    if stmts.len() > 0 {
        let (done, tail, before) = lower_stmts(env, stmts.drop_last(), st);
        let o = do_stmts(env, host, stmts.drop_last(), m, fuel);
        lemma_stmts(env, host, stmts.drop_last(), st, m, fuel);
        let demoted = match tail {
            Some(t) => done.push(effect(t)),
            None => done,
        };
        if let Some(t) = tail {
            lemma_one_more(host, done, t, m, fuel);
            lemma_one_more(host, done, effect(t), m, fuel);
            if let Outcome::Value(_, m0) = run_in_order(host, done, m, fuel) {
                lemma_at(host, effect(t).kids, 0, m0, fuel);
            }
        }
        assert(run_in_order(host, demoted, m, fuel) == without_value(o));
        match stmts.last().kind {
            StmtKind::Expr(Some(e)) => {
                lemma_one_more(host, demoted, lower_expr(env, *e, before).0, m, fuel);
                if let Outcome::Value(_, m1) = o {
                    assert(do_stmt(env, host, stmts.last(), m1, fuel) == does(
                        env,
                        host,
                        *e,
                        m1,
                        fuel,
                    ));
                    law_lowering_keeps_the_meaning(env, host, *e, before, m1, fuel);
                }
            },
            _ => {
                if let Some(t) = lower_stmt(env, stmts.last(), before).0 {
                    lemma_one_more(host, demoted, t, m, fuel);
                }
                if let Outcome::Value(_, m1) = o {
                    lemma_stmt(env, host, stmts.last(), before, m1, fuel);
                }
            },
        }
    }
}

proof fn lemma_stmt(env: LowerEnv, host: Host, s: Stmt, st: LowerState, m: Memory, fuel: nat)
    requires
        !(do_stmt(env, host, s, m, fuel) is Unknown),
        !(s.kind matches StmtKind::Expr(Some(_))),
    ensures
        match lower_stmt(env, s, st).0 {
            Some(t) => run(host, t, m, fuel) == do_stmt(env, host, s, m, fuel),
            None => do_stmt(env, host, s, m, fuel) == Outcome::Value(Datum::Unit, m),
        },
        do_stmt(env, host, s, m, fuel) matches Outcome::Value(d, _) ==> d == Datum::Unit,
    decreases fuel, s, 1nat,
{
    reveal(ran);
    match s.kind {
        StmtKind::Var { .. } => lemma_var(env, host, s, st, m, fuel),
        StmtKind::Assign { .. } => lemma_assign(env, host, s, st, m, fuel),
        StmtKind::Expr(None) => {
            assert(lower_effect(env, None, st).0 is None);
        },
        _ => {},
    }
}

proof fn lemma_run_var(
    host: Host,
    symbol: SymbolId,
    name: Seq<char>,
    init: Tree,
    span: (u32, u32),
    m: Memory,
    fuel: nat,
)
    ensures
        run(host, var_tree(symbol, name, init, span), m, fuel) == match run(host, init, m, fuel) {
            Outcome::Value(d, m1) => Outcome::Value(Datum::Unit, m1.insert(symbol, d)),
            o => o,
        },
        run(host, effect(init), m, fuel) == without_value(run(host, init, m, fuel)),
{
    lemma_at(host, seq![init], 0, m, fuel);
}

proof fn lemma_run_assign(
    host: Host,
    symbol: SymbolId,
    name: Seq<char>,
    op: AssignOp,
    value: Tree,
    span: (u32, u32),
    m: Memory,
    fuel: nat,
)
    ensures
        run(host, assign_tree(symbol, name, op, value, span), m, fuel) == match run(
            host,
            value,
            m,
            fuel,
        ) {
            Outcome::Value(d, m1) => if m1.contains_key(symbol) {
                match assignment_means(op, m1[symbol], d) {
                    Some(x) => Outcome::Value(Datum::Unit, m1.insert(symbol, x)),
                    None => Outcome::Unknown,
                }
            } else {
                Outcome::Unknown
            },
            o => o,
        },
{
    lemma_at(host, seq![value], 0, m, fuel);
}

/// A lowered expression, unopened.
#[verifier::opaque]
spec fn lowered(env: LowerEnv, e: Expr, st: LowerState) -> Tree {
    lower_expr(env, e, st).0
}

/// What running a tree comes to, unopened.
#[verifier::opaque]
spec fn ran(host: Host, t: Tree, m: Memory, fuel: nat) -> Outcome {
    run(host, t, m, fuel)
}

/// What running an expression comes to, unopened.
#[verifier::opaque]
spec fn done_by(env: LowerEnv, host: Host, e: Expr, m: Memory, fuel: nat) -> Outcome {
    does(env, host, e, m, fuel)
}

proof fn lemma_meaning(env: LowerEnv, host: Host, e: Expr, st: LowerState, m: Memory, fuel: nat)
    requires
        !(done_by(env, host, e, m, fuel) is Unknown),
    ensures
        ran(host, lowered(env, e, st), m, fuel) == done_by(env, host, e, m, fuel),
    decreases fuel, e, 3nat,
{
    reveal(lowered);
    reveal(ran);
    reveal(done_by);
    law_lowering_keeps_the_meaning(env, host, e, st, m, fuel);
}

proof fn lemma_lowered_stmt(env: LowerEnv, s: Stmt, st: LowerState)
    ensures
        match s.kind {
            StmtKind::Var { name: Some(n), init: Some(e), .. } => match at(env.decls, n.range) {
                Some(symbol) => lower_stmt(env, s, st).0 == Some(
                    var_tree(symbol, n.text@, lowered(env, *e, st), s.range.pair()),
                ),
                None => true,
            },
            StmtKind::Var { name: None, init: Some(e), .. } => lower_stmt(env, s, st).0 == Some(
                effect(lowered(env, *e, st)),
            ),
            StmtKind::Assign { name: Some(n), op, value: Some(e) } => match env.symbol_at(n.range) {
                Some(symbol) => lower_stmt(env, s, st).0 == Some(
                    assign_tree(
                        symbol,
                        n.text@,
                        assign_op(op),
                        lowered(env, *e, st),
                        s.range.pair(),
                    ),
                ),
                None => true,
            },
            _ => true,
        },
{
    reveal(lowered);
    match s.kind {
        StmtKind::Var { name, init: Some(e), .. } => {
            assert(lower_stmt(env, s, st) == lower_var(env, s, st));
            if name is None {
                assert(lower_effect(env, Some(e), st).0 == Some(effect(lower_expr(env, *e, st).0)));
            }
        },
        StmtKind::Assign { .. } => {
            assert(lower_stmt(env, s, st) == lower_assign(env, s, st));
        },
        _ => {},
    }
}

proof fn lemma_done_stmt(env: LowerEnv, host: Host, s: Stmt, m: Memory, fuel: nat)
    ensures
        do_stmt(env, host, s, m, fuel) == match s.kind {
            StmtKind::Var { name: Some(n), init: Some(e), .. } => match at(env.decls, n.range) {
                Some(symbol) => match done_by(env, host, *e, m, fuel) {
                    Outcome::Value(d, m1) => Outcome::Value(Datum::Unit, m1.insert(symbol, d)),
                    o => o,
                },
                None => Outcome::Unknown,
            },
            StmtKind::Var { name: None, init: Some(e), .. } => without_value(
                done_by(env, host, *e, m, fuel),
            ),
            StmtKind::Var { .. } => Outcome::Unknown,
            StmtKind::Assign { name: Some(n), op: Some(op), value: Some(e) } => match env.symbol_at(
                n.range,
            ) {
                Some(symbol) => match done_by(env, host, *e, m, fuel) {
                    Outcome::Value(d, m1) => if m1.contains_key(symbol) {
                        match store_means(op, m1[symbol], d) {
                            Some(x) => Outcome::Value(Datum::Unit, m1.insert(symbol, x)),
                            None => Outcome::Unknown,
                        }
                    } else {
                        Outcome::Unknown
                    },
                    o => o,
                },
                None => Outcome::Unknown,
            },
            StmtKind::Assign { .. } => Outcome::Unknown,
            _ => do_stmt(env, host, s, m, fuel),
        },
{
    reveal(done_by);
}

proof fn lemma_var(env: LowerEnv, host: Host, s: Stmt, st: LowerState, m: Memory, fuel: nat)
    requires
        !(do_stmt(env, host, s, m, fuel) is Unknown),
        s.kind is Var,
    ensures
        lower_stmt(env, s, st).0 is Some,
        ran(host, lower_stmt(env, s, st).0->0, m, fuel) == do_stmt(env, host, s, m, fuel),
        do_stmt(env, host, s, m, fuel) matches Outcome::Value(d, _) ==> d == Datum::Unit,
    decreases fuel, s, 0nat,
{
    lemma_lowered_stmt(env, s, st);
    lemma_done_stmt(env, host, s, m, fuel);
    if let StmtKind::Var { name, init: Some(e), .. } = s.kind {
        let symbol = match name {
            Some(n) => at(env.decls, n.range)->0,
            None => SymbolId(0),
        };
        let word = match name {
            Some(n) => n.text@,
            None => Seq::empty(),
        };
        lemma_ran_var(host, symbol, word, lowered(env, *e, st), s.range.pair(), m, fuel);
        lemma_meaning(env, host, *e, st, m, fuel);
    }
}

proof fn lemma_ran_var(
    host: Host,
    symbol: SymbolId,
    name: Seq<char>,
    init: Tree,
    span: (u32, u32),
    m: Memory,
    fuel: nat,
)
    ensures
        ran(host, var_tree(symbol, name, init, span), m, fuel) == match ran(host, init, m, fuel) {
            Outcome::Value(d, m1) => Outcome::Value(Datum::Unit, m1.insert(symbol, d)),
            o => o,
        },
        ran(host, effect(init), m, fuel) == without_value(ran(host, init, m, fuel)),
{
    reveal(ran);
    lemma_run_var(host, symbol, name, init, span, m, fuel);
}

proof fn lemma_assign(env: LowerEnv, host: Host, s: Stmt, st: LowerState, m: Memory, fuel: nat)
    requires
        !(do_stmt(env, host, s, m, fuel) is Unknown),
        s.kind is Assign,
    ensures
        lower_stmt(env, s, st).0 is Some,
        ran(host, lower_stmt(env, s, st).0->0, m, fuel) == do_stmt(env, host, s, m, fuel),
        do_stmt(env, host, s, m, fuel) matches Outcome::Value(d, _) ==> d == Datum::Unit,
    decreases fuel, s, 0nat,
{
    lemma_lowered_stmt(env, s, st);
    lemma_done_stmt(env, host, s, m, fuel);
    if let StmtKind::Assign { name: Some(n), op: Some(op), value: Some(e) } = s.kind {
        if let Some(symbol) = env.symbol_at(n.range) {
            let x = lowered(env, *e, st);
            let how = assign_op(Some(op));
            lemma_ran_assign(host, symbol, n.text@, how, x, s.range.pair(), m, fuel);
            lemma_meaning(env, host, *e, st, m, fuel);
            if let Outcome::Value(d, m1) = done_by(env, host, *e, m, fuel) {
                law_assignments_keep_their_meaning(op, op, m1[symbol], d);
            }
        }
    }
}

proof fn lemma_ran_assign(
    host: Host,
    symbol: SymbolId,
    name: Seq<char>,
    op: AssignOp,
    value: Tree,
    span: (u32, u32),
    m: Memory,
    fuel: nat,
)
    ensures
        ran(host, assign_tree(symbol, name, op, value, span), m, fuel) == match ran(
            host,
            value,
            m,
            fuel,
        ) {
            Outcome::Value(d, m1) => if m1.contains_key(symbol) {
                match assignment_means(op, m1[symbol], d) {
                    Some(x) => Outcome::Value(Datum::Unit, m1.insert(symbol, x)),
                    None => Outcome::Unknown,
                }
            } else {
                Outcome::Unknown
            },
            o => o,
        },
{
    reveal(ran);
    lemma_run_assign(host, symbol, name, op, value, span, m, fuel);
}

} // verus!
