//! What each construct of the source lowers to.
//!
//! Lowering reads the types analysis recorded and derives none of its own. A
//! part the source does not have lowers to the `Unit` value.
use vstd::prelude::*;

use crate::analysis::{CallSite, MethodEntry, MethodLowering, MethodRef};
use crate::ast::{
    AssignToken, BinToken, Block, Expr, ExprKind, FieldInit, FnItem, Ident, InterpPart,
    LitToken, MatchArm, Param, ParserBody, PlaceAssignOp, Stmt, StmtKind, Store, TopLevel,
    UnaryToken,
};
use crate::capture::{captures_of, FreeVar, ResolvedRef};
use crate::name_table::{ids_agree, lookup};
use crate::pattern::{build_spec, lit_value, PatternEnv};
use crate::source::{
    decimal_digits, diag_views, error_at, lemma_decimal_injective, DiagCode, DiagView, FileId, FileSpan, Span,
};
use crate::symbol::{SymbolId, SymbolKind, SymbolView};
use crate::tables::{at, NodeKey};
use crate::tree::{
    leaf, AssignOp, BinOp, CaptureKind, CaptureView, FnView, LitView, Node, ParamView, PatternView,
    Purity, RuntimeSymbol, Tree, UnaryOp,
};
use crate::typedb::DbView;
use crate::types::{EnumDefId, Type, TypeList};

verus! {

/// The routines of a subscript store: the store, and the read that a compound
/// operator needs first, where there is one.
#[derive(Clone, Copy, Debug, PartialEq, Eq, Structural)]
pub struct StoreRoutines {
    pub put: RuntimeSymbol,
    pub read: Option<Option<RuntimeSymbol>>,
}

/// What lowering reads.
pub ghost struct LowerEnv {
    pub file: FileId,
    pub db: DbView,
    pub names: Seq<SymbolView>,
    pub refs: Map<Span, ResolvedRef>,
    pub decls: Map<Span, SymbolId>,
    pub ref_types: Map<Span, Type>,
    pub call_sites: Map<Span, CallSite>,
    pub expr_types: Map<NodeKey, Type>,
    pub method_refs: Map<Span, MethodRef>,
}

/// What lowering gathers.
pub ghost struct LowerState {
    pub diags: Seq<DiagView>,
    /// How many closures have been named.
    pub closures: u64,
    pub escaping: Seq<SymbolId>,
}

impl LowerEnv {
    pub open spec fn at(self, range: Span) -> FileSpan {
        FileSpan { file: self.file, span: range }
    }

    pub open spec fn patterns(self) -> PatternEnv {
        PatternEnv { file: self.file, db: self.db, decls: self.decls }
    }

    /// The symbol a name refers to.
    pub open spec fn symbol_at(self, range: Span) -> Option<SymbolId> {
        match at(self.refs, range) {
            Some(r) => Some(r.symbol),
            None => None,
        }
    }

    /// The type of a symbol's binding; `Unit` where inference gave it none.
    pub open spec fn symbol_type(self, symbol: SymbolId) -> Type {
        match lookup(self.names, symbol) {
            Some(s) => match s.scheme {
                Some(scheme) => self.db.resolve(scheme.body),
                None => Type::Unit,
            },
            None => Type::Unit,
        }
    }

    pub open spec fn symbol_name(self, symbol: SymbolId) -> Seq<char> {
        match lookup(self.names, symbol) {
            Some(s) => s.name,
            None => Seq::empty(),
        }
    }

    /// The enum and variant a symbol constructs.
    pub open spec fn variant_of(self, symbol: SymbolId) -> Option<(EnumDefId, nat)> {
        match lookup(self.names, symbol) {
            Some(s) => if s.kind == SymbolKind::EnumVariant && s.scheme is Some {
                let body = self.db.resolve(s.scheme->0.body);
                let result = match body {
                    Type::Func(_, r) => *r,
                    _ => body,
                };
                match result {
                    Type::Enum(def, _) => match self.db.variant_index(def, s.name) {
                        Some(i) => Some((def, i)),
                        None => None,
                    },
                    _ => None,
                }
            } else {
                None
            },
            None => None,
        }
    }

    /// Whether a variant carries anything.
    pub open spec fn has_payload(self, def: EnumDefId, i: nat) -> bool {
        match self.db.enum_def(def) {
            Some(e) => i < e.variants.len() && !(e.variants[i as int].payload is Nil),
            None => false,
        }
    }
}

pub open spec fn with_diag(st: LowerState, d: DiagView) -> LowerState {
    LowerState { diags: st.diags.push(d), ..st }
}

/// The placeholder for what the source does not have.
pub open spec fn error_tree() -> Tree {
    leaf(Node::Lit(LitView::Unit), Type::Unit, (0, 0))
}

pub open spec fn unit_at(span: (u32, u32)) -> Tree {
    leaf(Node::Lit(LitView::Unit), Type::Unit, span)
}

/// A block of statements with a value.
pub open spec fn block_of(stmts: Seq<Tree>, tail: Tree) -> Tree {
    Tree { node: Node::Block, ty: tail.ty, span: (0, 0), kids: stmts.push(tail) }
}

pub open spec fn unit_block(span: (u32, u32)) -> Tree {
    block_of(Seq::empty(), unit_at(span))
}

pub open spec fn effect(e: Tree) -> Tree {
    Tree { node: Node::ExprStmt, ty: Type::Unit, span: (0, 0), kids: seq![e] }
}

pub open spec fn var_tree(symbol: SymbolId, name: Seq<char>, init: Tree, span: (u32, u32)) -> Tree {
    Tree { node: Node::Var(symbol, name), ty: init.ty, span, kids: seq![init] }
}

pub open spec fn assign_tree(
    symbol: SymbolId,
    name: Seq<char>,
    op: AssignOp,
    value: Tree,
    span: (u32, u32),
) -> Tree {
    Tree { node: Node::Assign(symbol, name, op), ty: Type::Unit, span, kids: seq![value] }
}

pub open spec fn index_assign_tree(
    place: Tree,
    get: Option<RuntimeSymbol>,
    put: RuntimeSymbol,
    op: AssignOp,
    value: Tree,
    span: (u32, u32),
) -> Tree {
    Tree {
        node: Node::IndexAssign(get, put, op),
        ty: Type::Unit,
        span,
        kids: place.kids.push(value),
    }
}

pub open spec fn field_assign_tree(
    receiver: Tree,
    field_idx: u32,
    op: AssignOp,
    value: Tree,
    span: (u32, u32),
) -> Tree {
    Tree {
        node: Node::FieldAssign(field_idx, op),
        ty: Type::Unit,
        span,
        kids: seq![receiver, value],
    }
}

/// The report of a node that inference recorded no type for.
pub open spec fn missing_type(env: LowerEnv, e: Expr) -> DiagView {
    error_at(
        env.at(e.range),
        DiagCode::InternalMissingType,
        "internal: inference recorded no type for this "@ + e.spec_syntax_kind().spec_name()
            + " expression"@,
    )
}

/// The type inference recorded for a node.
pub open spec fn node_ty(env: LowerEnv, e: Expr, st: LowerState) -> (Type, LowerState) {
    match at(env.expr_types, e.spec_key()) {
        Some(t) => (env.db.resolve(t), st),
        None => (Type::Unit, with_diag(st, missing_type(env, e))),
    }
}

// ---------------------------------------------------------------------------
// Operators
// ---------------------------------------------------------------------------

pub open spec fn assign_op(tok: Option<AssignToken>) -> AssignOp {
    match tok {
        Some(AssignToken::PlusEq) => AssignOp::AddAssign,
        Some(AssignToken::MinusEq) => AssignOp::SubAssign,
        Some(AssignToken::StarEq) => AssignOp::MulAssign,
        Some(AssignToken::SlashEq) => AssignOp::DivAssign,
        Some(AssignToken::PercentEq) => AssignOp::RemAssign,
        _ => AssignOp::Assign,
    }
}

/// The rows of `min=` and `max=` do the whole update, so nothing is read before
/// them.
pub open spec fn place_op(op: PlaceAssignOp) -> AssignOp {
    match op {
        PlaceAssignOp::Store | PlaceAssignOp::Min | PlaceAssignOp::Max => AssignOp::Assign,
        PlaceAssignOp::Plus => AssignOp::AddAssign,
        PlaceAssignOp::Minus => AssignOp::SubAssign,
        PlaceAssignOp::Times => AssignOp::MulAssign,
        PlaceAssignOp::Div => AssignOp::DivAssign,
        PlaceAssignOp::Rem => AssignOp::RemAssign,
    }
}

pub open spec fn bin_op(tok: Option<BinToken>) -> BinOp {
    match tok {
        Some(BinToken::Plus) => BinOp::Add,
        Some(BinToken::Minus) => BinOp::Sub,
        Some(BinToken::Star) => BinOp::Mul,
        Some(BinToken::Slash) => BinOp::Div,
        Some(BinToken::Percent) => BinOp::Rem,
        Some(BinToken::Eq2) => BinOp::Eq,
        Some(BinToken::Neq) => BinOp::Neq,
        Some(BinToken::Lt) => BinOp::Lt,
        Some(BinToken::Gt) => BinOp::Gt,
        Some(BinToken::LtEq) => BinOp::Le,
        Some(BinToken::GtEq) => BinOp::Ge,
        Some(BinToken::Pipe2) => BinOp::LogicalOr,
        Some(BinToken::Amp2) => BinOp::LogicalAnd,
        None => BinOp::Add,
    }
}

pub open spec fn unary_op(tok: Option<UnaryToken>) -> UnaryOp {
    match tok {
        Some(UnaryToken::Bang) => UnaryOp::Not,
        _ => UnaryOp::Neg,
    }
}

/// The routine a catalog row is carried out by.
pub open spec fn routine(l: MethodLowering) -> Option<RuntimeSymbol> {
    match l {
        MethodLowering::RuntimeSymbol(s) => Some(s),
        MethodLowering::ScalarPrimitive(s) => Some(s),
        MethodLowering::Intrinsic(_) => None,
    }
}

/// The value of a literal in an expression.
pub open spec fn expr_lit(tok: Option<LitToken>) -> LitView {
    match tok {
        Some(LitToken::Template) => LitView::Unit,
        Some(t) => match lit_value(t) {
            Some(v) => v,
            None => LitView::Int(0),
        },
        None => LitView::Int(0),
    }
}

// ---------------------------------------------------------------------------
// Parameters and captures
// ---------------------------------------------------------------------------

/// A parameter's slot: named, anonymous for `_`, nameless for a pattern.
pub open spec fn lower_param(env: LowerEnv, p: Param) -> Option<ParamView> {
    let slot = match p.name {
        Some(n) => Some((n.range, Some(n.text@))),
        None => match p.wildcard {
            Some(range) => Some((range, Some("_"@))),
            None => match p.pattern {
                Some(pat) => Some((pat.range, None)),
                None => None,
            },
        },
    };
    match slot {
        Some((range, name)) => match at(env.decls, range) {
            Some(symbol) => Some(ParamView { symbol, name, ty: env.symbol_type(symbol) }),
            None => None,
        },
        None => None,
    }
}

pub open spec fn lower_params(env: LowerEnv, ps: Seq<Param>) -> Seq<ParamView>
    decreases ps.len(),
{
    if ps.len() == 0 {
        Seq::empty()
    } else {
        let before = lower_params(env, ps.drop_last());
        match lower_param(env, ps.last()) {
            Some(p) => before.push(p),
            None => before,
        }
    }
}

/// A captured name: its type at the reference that takes it, or its binding's;
/// a shared cell exactly where something writes it.
pub open spec fn capture_of(env: LowerEnv, f: FreeVar) -> CaptureView {
    CaptureView {
        symbol: f.symbol,
        name: env.symbol_name(f.symbol),
        ty: match at(env.ref_types, f.ref_range) {
            Some(t) => env.db.resolve(t),
            None => env.symbol_type(f.symbol),
        },
        kind: match lookup(env.names, f.symbol) {
            Some(s) => if s.reassigned {
                CaptureKind::ByCell
            } else {
                CaptureKind::ByValue
            },
            None => CaptureKind::ByValue,
        },
    }
}

pub open spec fn captures(env: LowerEnv, fs: Seq<FreeVar>) -> Seq<CaptureView> {
    fs.map_values(|f: FreeVar| capture_of(env, f))
}

/// `held` with the symbols captured by cell added, each once.
pub open spec fn escaping(held: Seq<SymbolId>, cs: Seq<CaptureView>) -> Seq<SymbolId>
    decreases cs.len(),
{
    if cs.len() == 0 {
        held
    } else {
        let before = escaping(held, cs.drop_last());
        let c = cs.last();
        if c.kind == CaptureKind::ByCell && !before.contains(c.symbol) {
            before.push(c.symbol)
        } else {
            before
        }
    }
}

pub open spec fn closure_name(n: u64) -> Seq<char> {
    "__closure_"@ + decimal_digits(n as nat)
}

pub open spec fn next_closure(n: u64) -> u64 {
    if n == u64::MAX {
        0
    } else {
        (n + 1) as u64
    }
}

/// `body` inside one `match` per parameter that takes its argument apart, the
/// first parameter's outermost.
pub open spec fn destructured(
    env: LowerEnv,
    ps: Seq<Param>,
    body: Tree,
    span: (u32, u32),
    st: LowerState,
) -> (Tree, LowerState)
    decreases ps.len(),
{
    if ps.len() == 0 {
        (body, st)
    } else {
        let (wrapped, after) = destructured_one(env, ps.last(), body, span, st);
        destructured(env, ps.drop_last(), wrapped, span, after)
    }
}

pub open spec fn destructured_one(
    env: LowerEnv,
    p: Param,
    body: Tree,
    span: (u32, u32),
    st: LowerState,
) -> (Tree, LowerState) {
    match (p.name, p.pattern) {
        (None, Some(pat)) => if pat.kind is Wildcard {
            (body, st)
        } else {
            match at(env.decls, pat.range) {
                Some(symbol) => {
                    let ty = env.symbol_type(symbol);
                    let (pattern, diags) = build_spec(env.patterns(), pat, ty, st.diags);
                    (
                        block_of(
                            Seq::empty(),
                            Tree {
                                node: Node::Match(seq![pattern]),
                                ty: body.ty,
                                span,
                                kids: seq![leaf(Node::Path(symbol), ty, span)] + seq![body],
                            },
                        ),
                        LowerState { diags, ..st },
                    )
                },
                None => (body, st),
            }
        },
        _ => (body, st),
    }
}

/// A name used as a value: a variant without a payload, a function, or the
/// binding itself.
pub open spec fn lower_path(env: LowerEnv, name: Option<Ident>, ty: Type, span: (u32, u32)) -> Tree {
    let symbol = match name {
        Some(n) => env.symbol_at(n.range),
        None => None,
    };
    let id = match symbol {
        Some(s) => s,
        None => SymbolId::spec_unresolved(),
    };
    match (symbol, env.variant_of(id)) {
        (Some(s), Some((def, i))) => if !env.has_payload(def, i) {
            leaf(Node::EnumVariant(def, i as u32), ty, span)
        } else {
            lower_binding(env, id, ty, span)
        },
        _ => lower_binding(env, id, ty, span),
    }
}

pub open spec fn lower_binding(env: LowerEnv, id: SymbolId, ty: Type, span: (u32, u32)) -> Tree {
    match lookup(env.names, id) {
        Some(s) => if s.kind == SymbolKind::Fn {
            leaf(Node::FnValue(id, s.name), ty, span)
        } else {
            leaf(Node::Path(id), ty, span)
        },
        None => leaf(Node::Path(id), ty, span),
    }
}

/// `s` with `f` after the last field whose index is not greater.
pub open spec fn insert_field(s: Seq<(u32, Tree)>, f: (u32, Tree)) -> Seq<(u32, Tree)>
    decreases s.len(),
{
    if s.len() == 0 || s.last().0 <= f.0 {
        s.push(f)
    } else {
        insert_field(s.drop_last(), f).push(s.last())
    }
}

pub open spec fn resolve_all(env: LowerEnv, ts: Seq<Type>) -> Seq<Type> {
    ts.map_values(|t: Type| env.db.resolve(t))
}

/// The types a named callee is called at.
pub open spec fn call_types(env: LowerEnv, callee: Option<Ident>) -> Seq<Type> {
    match callee {
        Some(n) => match at(env.call_sites, n.range) {
            Some(site) => resolve_all(env, site.arg_types.seq()),
            None => Seq::empty(),
        },
        None => Seq::empty(),
    }
}

/// The plan of a parser expression, and its reports added to the others.
pub open spec fn parser_outcome(p: ParserBody, st: LowerState) -> LowerState {
    LowerState { diags: st.diags + diag_views(p.plan_reports@), ..st }
}

// ---------------------------------------------------------------------------
// Expressions
// ---------------------------------------------------------------------------

pub open spec fn lower_opt(env: LowerEnv, e: Option<Box<Expr>>, st: LowerState) -> (
    Tree,
    LowerState,
)
    decreases e, 0nat,
{
    match e {
        Some(b) => lower_expr(env, *b, st),
        None => (error_tree(), st),
    }
}

/// An optional value: nothing stays nothing.
pub open spec fn lower_value(env: LowerEnv, e: Option<Box<Expr>>, st: LowerState) -> (
    Seq<Tree>,
    LowerState,
)
    decreases e, 0nat,
{
    match e {
        Some(b) => {
            let (t, after) = lower_expr(env, *b, st);
            (seq![t], after)
        },
        None => (Seq::empty(), st),
    }
}

pub open spec fn lower_list(env: LowerEnv, es: Seq<Expr>, st: LowerState) -> (Seq<Tree>, LowerState)
    decreases es, 0nat,
{
    if es.len() == 0 {
        (Seq::empty(), st)
    } else {
        let (ts, before) = lower_list(env, es.drop_last(), st);
        let (t, after) = lower_expr(env, es.last(), before);
        (ts.push(t), after)
    }
}

pub open spec fn lower_opt_block(env: LowerEnv, b: Option<Block>, st: LowerState) -> (
    Tree,
    LowerState,
)
    decreases b, 0nat,
{
    match b {
        Some(b) => lower_block(env, b, st),
        None => (unit_block((0, 0)), st),
    }
}

/// An expression where a block is wanted: a block as it is, anything else as
/// the value of a block.
pub open spec fn lower_as_block(env: LowerEnv, e: Expr, st: LowerState) -> (Tree, LowerState)
    decreases e, 2nat,
{
    match e.kind {
        ExprKind::Block(b) => lower_block(env, b, st),
        _ => {
            let (t, after) = lower_expr(env, e, st);
            (block_of(Seq::empty(), t), after)
        },
    }
}

pub open spec fn lower_expr(env: LowerEnv, e: Expr, st: LowerState) -> (Tree, LowerState)
    decreases e, 1nat,
{
    let span = e.range.pair();
    match e.kind {
        ExprKind::Literal(tok) => {
            let (ty, after) = node_ty(env, e, st);
            (leaf(Node::Lit(expr_lit(tok)), ty, span), after)
        },
        ExprKind::Interp(_) => lower_interp(env, e, st),
        ExprKind::Path(name) => {
            let (ty, after) = node_ty(env, e, st);
            (lower_path(env, name, ty, span), after)
        },
        ExprKind::Bin { lhs, op, rhs } => {
            let (l, s1) = lower_opt(env, lhs, st);
            let (r, s2) = lower_opt(env, rhs, s1);
            let (ty, after) = node_ty(env, e, s2);
            (Tree { node: Node::Bin(bin_op(op)), ty, span, kids: seq![l, r] }, after)
        },
        ExprKind::Range { start, end, inclusive } => {
            let (ty, s1) = node_ty(env, e, st);
            let (l, s2) = lower_bound(env, start, span, s1);
            let (r, after) = lower_bound(env, end, span, s2);
            (Tree { node: Node::Range(inclusive), ty, span, kids: seq![l, r] }, after)
        },
        ExprKind::Unary { op, operand } => {
            let (t, s1) = lower_opt(env, operand, st);
            let (ty, after) = node_ty(env, e, s1);
            (Tree { node: Node::Unary(unary_op(op)), ty, span, kids: seq![t] }, after)
        },
        ExprKind::Paren(inner) => match inner {
            Some(b) => lower_expr(env, *b, st),
            None => {
                let (ty, after) = node_ty(env, e, st);
                (leaf(Node::Paren, ty, span), after)
            },
        },
        ExprKind::Block(b) => lower_block(env, b, st),
        ExprKind::If { cond, then_branch, else_branch } => {
            let (c, s1) = lower_opt(env, cond, st);
            let (t, s2) = lower_opt_block(env, then_branch, s1);
            let (f, s3) = lower_else(env, else_branch, s2);
            let (ty, after) = node_ty(env, e, s3);
            (Tree { node: Node::If, ty, span, kids: seq![c, t] + f }, after)
        },
        ExprKind::While { cond, body } => {
            let (c, s1) = lower_opt(env, cond, st);
            let (b, s2) = lower_opt_block(env, body, s1);
            let (ty, after) = node_ty(env, e, s2);
            (Tree { node: Node::While, ty, span, kids: seq![c, b] }, after)
        },
        ExprKind::For { .. } => lower_for(env, e, st),
        ExprKind::Loop { body } => {
            let (b, s1) = lower_opt_block(env, body, st);
            let (ty, after) = node_ty(env, e, s1);
            (Tree { node: Node::Loop, ty, span, kids: seq![b] }, after)
        },
        ExprKind::Break(value) => {
            let (v, s1) = lower_value(env, value, st);
            let (ty, after) = node_ty(env, e, s1);
            (Tree { node: Node::Break, ty, span, kids: v }, after)
        },
        ExprKind::Continue => {
            let (ty, after) = node_ty(env, e, st);
            (leaf(Node::Continue, ty, span), after)
        },
        ExprKind::Return(value) => {
            let (v, s1) = lower_value(env, value, st);
            let (ty, after) = node_ty(env, e, s1);
            (Tree { node: Node::Return, ty, span, kids: v }, after)
        },
        ExprKind::Call { .. } => lower_call(env, e, st),
        ExprKind::MethodCall { .. } => lower_method_call(env, e, st),
        ExprKind::Tuple(els) => {
            let (ts, s1) = lower_list(env, els@, st);
            let (ty, after) = node_ty(env, e, s1);
            (Tree { node: Node::Tuple, ty, span, kids: ts }, after)
        },
        ExprKind::List(els) => {
            let (ts, s1) = lower_list(env, els@, st);
            let (ty, after) = node_ty(env, e, s1);
            (Tree { node: Node::ListLit, ty, span, kids: ts }, after)
        },
        ExprKind::Read(parser) => match parser {
            Some(p) => {
                let s1 = parser_outcome(p, st);
                match p.plan {
                    Some(plan) => {
                        let (ty, after) = node_ty(env, e, s1);
                        (leaf(Node::Read(plan), ty, span), after)
                    },
                    None => (error_tree(), s1),
                }
            },
            None => (error_tree(), st),
        },
        ExprKind::Parse { text, parser } => {
            let (t, s1) = lower_opt(env, text, st);
            match parser {
                Some(p) => {
                    let s2 = parser_outcome(p, s1);
                    match p.plan {
                        Some(plan) => {
                            let (ty, after) = node_ty(env, e, s2);
                            (Tree { node: Node::Parse(plan), ty, span, kids: seq![t] }, after)
                        },
                        None => (error_tree(), s2),
                    }
                },
                None => (error_tree(), s1),
            }
        },
        ExprKind::RecordLit { .. } => lower_record_lit(env, e, st),
        ExprKind::FieldGet { .. } => {
            let (place, s1) = lower_field_place(env, e, st);
            match place {
                Some((receiver, idx)) => {
                    let (ty, after) = node_ty(env, e, s1);
                    (Tree { node: Node::FieldGet(idx), ty, span, kids: seq![receiver] }, after)
                },
                None => (error_tree(), s1),
            }
        },
        ExprKind::TupleIndex { receiver, index } => match receiver {
            Some(r) => {
                let (t, s1) = lower_expr(env, *r, st);
                if index is Some && index->0 <= u32::MAX {
                    let (ty, after) = node_ty(env, e, s1);
                    (
                        Tree {
                            node: Node::TupleIndex(index->0 as u32),
                            ty,
                            span,
                            kids: seq![t],
                        },
                        after,
                    )
                } else {
                    (error_tree(), s1)
                }
            },
            None => (error_tree(), st),
        },
        ExprKind::Index { .. } => lower_index(env, e, st),
        ExprKind::Match { .. } => lower_match(env, e, st),
        ExprKind::Closure { .. } => lower_closure(env, e, st),
        ExprKind::Error => {
            let (ty, after) = node_ty(env, e, st);
            (leaf(Node::Lit(LitView::Int(0)), ty, span), after)
        },
    }
}

/// A range's bound; a bound the source lacks is `Unit`.
pub open spec fn lower_bound(
    env: LowerEnv,
    e: Option<Box<Expr>>,
    span: (u32, u32),
    st: LowerState,
) -> (Tree, LowerState)
    decreases e, 0nat,
{
    match e {
        Some(b) => lower_expr(env, *b, st),
        None => (unit_at(span), st),
    }
}

pub open spec fn lower_else(env: LowerEnv, e: Option<Box<Expr>>, st: LowerState) -> (
    Seq<Tree>,
    LowerState,
)
    decreases e, 0nat,
{
    match e {
        Some(b) => {
            let (t, after) = lower_as_block(env, *b, st);
            (seq![t], after)
        },
        None => (Seq::empty(), st),
    }
}

/// The text before each hole, the holes, and the text after the last.
pub open spec fn lower_parts(env: LowerEnv, parts: Seq<InterpPart>, st: LowerState) -> (
    Seq<Seq<char>>,
    Seq<Tree>,
    Seq<char>,
    LowerState,
)
    decreases parts, 0nat,
{
    if parts.len() == 0 {
        (Seq::empty(), Seq::empty(), Seq::empty(), st)
    } else {
        let (texts, holes, pending, before) = lower_parts(env, parts.drop_last(), st);
        match parts.last() {
            InterpPart::Fragment(s) => (texts, holes, pending + s@, before),
            InterpPart::Hole(e) => {
                let (t, after) = lower_expr(env, e, before);
                (texts.push(pending), holes.push(t), Seq::empty(), after)
            },
        }
    }
}

pub open spec fn lower_interp(env: LowerEnv, e: Expr, st: LowerState) -> (Tree, LowerState)
    decreases e, 0nat,
{
    match e.kind {
        ExprKind::Interp(parts) => {
            let (ty, s1) = node_ty(env, e, st);
            let (texts, holes, trailing, after) = lower_parts(env, parts@, s1);
            (
                Tree {
                    node: Node::Interp(texts, trailing),
                    ty,
                    span: e.range.pair(),
                    kids: holes,
                },
                after,
            )
        },
        _ => (error_tree(), st),
    }
}

/// The type of a `for` item, recorded at its binding.
pub open spec fn item_type(env: LowerEnv, e: Expr) -> Type {
    match e.kind {
        ExprKind::For { binding: Some(p), .. } => match at(env.ref_types, p.range) {
            Some(t) => env.db.resolve(t),
            None => Type::Unit,
        },
        _ => Type::Unit,
    }
}

pub open spec fn lower_for(env: LowerEnv, e: Expr, st: LowerState) -> (Tree, LowerState)
    decreases e, 0nat,
{
    match e.kind {
        ExprKind::For { binding, iter, body } => {
            let (i, s1) = lower_opt(env, iter, st);
            let (b, s2) = lower_opt_block(env, body, s1);
            let item = item_type(env, e);
            let (pattern, diags) = match binding {
                Some(p) => build_spec(env.patterns(), p, item, s2.diags),
                None => (PatternView::Wildcard, s2.diags),
            };
            let (ty, after) = node_ty(env, e, LowerState { diags, ..s2 });
            (
                Tree {
                    node: Node::For(pattern, item),
                    ty,
                    span: e.range.pair(),
                    kids: seq![i, b],
                },
                after,
            )
        },
        _ => (error_tree(), st),
    }
}

pub open spec fn lower_call(env: LowerEnv, e: Expr, st: LowerState) -> (Tree, LowerState)
    decreases e, 0nat,
{
    match e.kind {
        ExprKind::Call { callee, callee_expr, args, .. } => {
            let span = e.range.pair();
            let (target, s1) = if callee is None {
                lower_value(env, callee_expr, st)
            } else {
                (Seq::empty(), st)
            };
            let symbol = match callee {
                Some(n) => match env.symbol_at(n.range) {
                    Some(s) => s,
                    None => SymbolId::spec_unresolved(),
                },
                None => SymbolId::spec_unresolved(),
            };
            let name = match callee {
                Some(n) => n.text@,
                None => Seq::empty(),
            };
            let (ts, s2) = lower_list(env, args@, s1);
            let (ty, after) = node_ty(env, e, s2);
            match env.variant_of(symbol) {
                Some((def, i)) => (
                    Tree { node: Node::EnumVariant(def, i as u32), ty, span, kids: ts },
                    after,
                ),
                None => (
                    Tree {
                        node: Node::Call(symbol, name, call_types(env, callee), target.len() > 0),
                        ty,
                        span,
                        kids: ts + target,
                    },
                    after,
                ),
            }
        },
        _ => (error_tree(), st),
    }
}

/// A call of the method a catalog row describes, or of a method that inference
/// could not resolve.
pub open spec fn method_tree(
    env: LowerEnv,
    e: Expr,
    name: Seq<char>,
    row: Option<MethodRef>,
    kids: Seq<Tree>,
    st: LowerState,
) -> (Tree, LowerState) {
    let span = e.range.pair();
    match row {
        Some(m) => (
            Tree {
                node: Node::MethodCall(
                    name,
                    routine(m.entry.lowering),
                    m.entry.receiver_is_iterable,
                    m.entry.purity,
                ),
                ty: env.db.resolve(m.result),
                span,
                kids,
            },
            st,
        ),
        None => {
            let (ty, after) = node_ty(env, e, st);
            (
                Tree {
                    node: Node::MethodCall(name, None, false, Purity::Impure),
                    ty,
                    span,
                    kids,
                },
                after,
            )
        },
    }
}

pub open spec fn lower_method_call(env: LowerEnv, e: Expr, st: LowerState) -> (Tree, LowerState)
    decreases e, 0nat,
{
    match e.kind {
        ExprKind::MethodCall { receiver, name, args } => {
            let (r, s1) = lower_bound(env, receiver, e.range.pair(), st);
            let (ts, s2) = lower_list(env, args@, s1);
            let (word, row) = match name {
                Some(n) => (n.text@, at(env.method_refs, n.range)),
                None => (Seq::empty(), None),
            };
            method_tree(env, e, word, row, seq![r] + ts, s2)
        },
        _ => (error_tree(), st),
    }
}

pub open spec fn lower_index(env: LowerEnv, e: Expr, st: LowerState) -> (Tree, LowerState)
    decreases e, 0nat,
{
    match e.kind {
        ExprKind::Index { receiver, indices } => match receiver {
            Some(b) => {
                let (r, s1) = lower_expr(env, *b, st);
                let (ts, s2) = lower_list(env, indices@, s1);
                method_tree(env, e, "[]"@, at(env.method_refs, e.range), seq![r] + ts, s2)
            },
            None => (error_tree(), st),
        },
        _ => (error_tree(), st),
    }
}

/// The fields a record literal gives, in declaration order.
pub open spec fn lower_fields(
    env: LowerEnv,
    fields: Seq<FieldInit>,
    ty: Type,
    st: LowerState,
) -> (Seq<(u32, Tree)>, LowerState)
    decreases fields, 0nat,
{
    if fields.len() == 0 {
        (Seq::empty(), st)
    } else {
        let (fs, before) = lower_fields(env, fields.drop_last(), ty, st);
        let field = fields.last();
        match (field.name, ty) {
            (Some(name), Type::Record(def, _)) => match env.db.field_index(def, name.text@) {
                Some(i) => match field.expr {
                    Some(e) => {
                        let (t, after) = lower_expr(env, *e, before);
                        (insert_field(fs, (i as u32, t)), after)
                    },
                    None => {
                        let t = match env.symbol_at(name.range) {
                            Some(symbol) => leaf(
                                Node::Path(symbol),
                                env.symbol_type(symbol),
                                name.range.pair(),
                            ),
                            None => error_tree(),
                        };
                        (insert_field(fs, (i as u32, t)), before)
                    },
                },
                None => (fs, before),
            },
            _ => (fs, before),
        }
    }
}

pub open spec fn lower_record_lit(env: LowerEnv, e: Expr, st: LowerState) -> (Tree, LowerState)
    decreases e, 0nat,
{
    match e.kind {
        ExprKind::RecordLit { fields, .. } => {
            let (ty, s1) = node_ty(env, e, st);
            match ty {
                Type::Record(def, _) => {
                    let (fs, after) = lower_fields(env, fields@, ty, s1);
                    (
                        Tree {
                            node: Node::RecordLit(def, fs.map_values(|f: (u32, Tree)| f.0)),
                            ty,
                            span: e.range.pair(),
                            kids: fs.map_values(|f: (u32, Tree)| f.1),
                        },
                        after,
                    )
                },
                _ => (error_tree(), s1),
            }
        },
        _ => (error_tree(), st),
    }
}

/// The receiver and the slot a `receiver.field` names. A receiver whose type
/// nothing ever pinned is not an error; a type without the field is.
pub open spec fn lower_field_place(env: LowerEnv, e: Expr, st: LowerState) -> (
    Option<(Tree, u32)>,
    LowerState,
)
    decreases e, 0nat,
{
    match e.kind {
        ExprKind::FieldGet { receiver, name } => match receiver {
            Some(b) => {
                let (r, s1) = lower_expr(env, *b, st);
                let ty = env.db.resolve(r.ty);
                let found = match (ty, name) {
                    (Type::Record(def, _), Some(n)) => env.db.field_index(def, n.text@),
                    _ => None,
                };
                match found {
                    Some(i) => (Some((r, i as u32)), s1),
                    None => (
                        None,
                        match (ty, name) {
                            (Type::Var(_), _) => s1,
                            (_, Some(n)) => with_diag(
                                s1,
                                error_at(
                                    env.at(n.range),
                                    DiagCode::NoFieldOnType,
                                    "no field `"@ + n.text@ + "` on this type"@,
                                ),
                            ),
                            (_, None) => s1,
                        },
                    ),
                }
            },
            None => (None, st),
        },
        _ => (None, st),
    }
}

pub open spec fn lower_arms(env: LowerEnv, arms: Seq<MatchArm>, ty: Type, st: LowerState) -> (
    Seq<PatternView>,
    Seq<Tree>,
    LowerState,
)
    decreases arms, 0nat,
{
    if arms.len() == 0 {
        (Seq::empty(), Seq::empty(), st)
    } else {
        let (ps, ts, before) = lower_arms(env, arms.drop_last(), ty, st);
        let arm = arms.last();
        let (p, diags) = match arm.pattern {
            Some(pat) => build_spec(env.patterns(), pat, ty, before.diags),
            None => (PatternView::Wildcard, before.diags),
        };
        let s1 = LowerState { diags, ..before };
        let (t, after) = lower_opt(env, arm.body, s1);
        (ps.push(p), ts.push(t), after)
    }
}

pub open spec fn lower_match(env: LowerEnv, e: Expr, st: LowerState) -> (Tree, LowerState)
    decreases e, 0nat,
{
    match e.kind {
        ExprKind::Match { scrutinee, arms } => match scrutinee {
            Some(b) => {
                let (s, s1) = lower_expr(env, *b, st);
                let (ps, ts, s2) = lower_arms(env, arms@, s.ty, s1);
                let (ty, after) = node_ty(env, e, s2);
                (
                    Tree {
                        node: Node::Match(ps),
                        ty,
                        span: e.range.pair(),
                        kids: seq![s] + ts,
                    },
                    after,
                )
            },
            None => (error_tree(), st),
        },
        _ => (error_tree(), st),
    }
}

pub open spec fn lower_closure(env: LowerEnv, e: Expr, st: LowerState) -> (Tree, LowerState)
    decreases e, 0nat,
{
    match e.kind {
        ExprKind::Closure { params, body } => {
            let span = e.range.pair();
            let (b, s1) = lower_closure_body(env, body, span, st);
            let (wrapped, s2) = destructured(env, params@, b, span, s1);
            let (fn_type, s3) = node_ty(env, e, s2);
            let caught = match body {
                Some(x) => captures(env, captures_of(*x, e.range, env.refs, env.names)),
                None => Seq::empty(),
            };
            let after = LowerState {
                closures: next_closure(s3.closures),
                escaping: escaping(s3.escaping, caught),
                ..s3
            };
            (
                Tree {
                    node: Node::Closure(
                        lower_params(env, params@),
                        caught,
                        fn_type,
                        closure_name(s3.closures),
                    ),
                    ty: fn_type,
                    span,
                    kids: seq![wrapped],
                },
                after,
            )
        },
        _ => (error_tree(), st),
    }
}

pub open spec fn lower_closure_body(
    env: LowerEnv,
    body: Option<Box<Expr>>,
    span: (u32, u32),
    st: LowerState,
) -> (Tree, LowerState)
    decreases body, 0nat,
{
    match body {
        Some(b) => lower_as_block(env, *b, st),
        None => (unit_block(span), st),
    }
}

// ---------------------------------------------------------------------------
// Statements
// ---------------------------------------------------------------------------

/// The statements of a block so far, and the expression that is its value if
/// nothing follows it.
pub open spec fn lower_stmts(env: LowerEnv, stmts: Seq<Stmt>, st: LowerState) -> (
    Seq<Tree>,
    Option<Tree>,
    LowerState,
)
    decreases stmts, 0nat,
{
    if stmts.len() == 0 {
        (Seq::empty(), None, st)
    } else {
        let (done, tail, before) = lower_stmts(env, stmts.drop_last(), st);
        // Whatever looked like the value was not: something follows it.
        let demoted = match tail {
            Some(t) => done.push(effect(t)),
            None => done,
        };
        match stmts.last().kind {
            StmtKind::Expr(Some(e)) => {
                let (t, after) = lower_expr(env, *e, before);
                (demoted, Some(t), after)
            },
            _ => {
                let (s, after) = lower_stmt(env, stmts.last(), before);
                match s {
                    Some(t) => (demoted.push(t), None, after),
                    None => (demoted, None, after),
                }
            },
        }
    }
}

pub open spec fn lower_block(env: LowerEnv, b: Block, st: LowerState) -> (Tree, LowerState)
    decreases b, 0nat,
{
    let (stmts, tail, after) = lower_stmts(env, b.stmts@, st);
    match tail {
        Some(t) => (block_of(stmts, t), after),
        None => (block_of(stmts, error_tree()), after),
    }
}

pub open spec fn lower_stmt(env: LowerEnv, s: Stmt, st: LowerState) -> (Option<Tree>, LowerState)
    decreases s, 3nat,
{
    match s.kind {
        StmtKind::Var { .. } => lower_var(env, s, st),
        StmtKind::Assign { .. } => lower_assign(env, s, st),
        StmtKind::PlaceAssign(store) => lower_place_assign(env, store, s.range.pair(), st),
        StmtKind::Expr(e) => lower_effect(env, e, st),
        StmtKind::Other => (None, st),
    }
}

/// An expression run for its effect, if there is one.
pub open spec fn lower_effect(env: LowerEnv, e: Option<Box<Expr>>, st: LowerState) -> (
    Option<Tree>,
    LowerState,
)
    decreases e, 0nat,
{
    match e {
        Some(e) => {
            let (t, after) = lower_expr(env, *e, st);
            (Some(effect(t)), after)
        },
        None => (None, st),
    }
}

/// A binding. One without a name still runs its initializer.
pub open spec fn lower_var(env: LowerEnv, s: Stmt, st: LowerState) -> (Option<Tree>, LowerState)
    decreases s, 0nat,
{
    match s.kind {
        StmtKind::Var { name, init, .. } => match name {
            None => lower_effect(env, init, st),
            Some(n) => match (at(env.decls, n.range), init) {
                (Some(symbol), Some(e)) => {
                    let (t, after) = lower_expr(env, *e, st);
                    (Some(var_tree(symbol, n.text@, t, s.range.pair())), after)
                },
                _ => (None, st),
            },
        },
        _ => (None, st),
    }
}

pub open spec fn lower_assign(env: LowerEnv, s: Stmt, st: LowerState) -> (Option<Tree>, LowerState)
    decreases s, 0nat,
{
    match s.kind {
        StmtKind::Assign { name, op, value } => match name {
            Some(n) => match (env.symbol_at(n.range), value) {
                (Some(symbol), Some(e)) => {
                    let (t, after) = lower_expr(env, *e, st);
                    (
                        Some(assign_tree(symbol, n.text@, assign_op(op), t, s.range.pair())),
                        after,
                    )
                },
                _ => (None, st),
            },
            None => (None, st),
        },
        _ => (None, st),
    }
}

/// The read a compound store needs first: none for a plain store.
pub open spec fn index_read(op: AssignOp, entry: MethodEntry) -> Option<Option<RuntimeSymbol>> {
    if op == AssignOp::Assign {
        Some(None)
    } else {
        match entry.index_read {
            Some(MethodLowering::RuntimeSymbol(s)) => Some(Some(s)),
            _ => None,
        }
    }
}

/// The routines a subscript store is carried out by, if it is one of the
/// runtime's.
pub open spec fn store_routines(env: LowerEnv, range: Span, op: AssignOp) -> Option<
    StoreRoutines,
> {
    match at(env.method_refs, range) {
        Some(m) => match m.entry.lowering {
            MethodLowering::RuntimeSymbol(put) => Some(
                StoreRoutines { put, read: index_read(op, m.entry) },
            ),
            _ => None,
        },
        None => None,
    }
}

pub open spec fn lower_place_assign(
    env: LowerEnv,
    s: Store,
    span: (u32, u32),
    st: LowerState,
) -> (Option<Tree>, LowerState)
    decreases s, 2nat,
{
    match s.target {
        Some(t) => match t.kind {
            ExprKind::Index { .. } => match store_routines(env, t.range, place_op(s.op)) {
                Some(_) => lower_index_assign(env, s, span, st),
                None => (None, st),
            },
            ExprKind::FieldGet { .. } => lower_field_assign(env, s, span, st),
            _ => (None, st),
        },
        None => (None, st),
    }
}

/// What a subscript is of and its indices, gathered as a tuple.
pub open spec fn place_tree(parts: Seq<Tree>) -> Tree {
    Tree { node: Node::Tuple, ty: Type::Unit, span: (0, 0), kids: parts }
}

pub open spec fn lower_subscript(env: LowerEnv, e: Expr, st: LowerState) -> (Tree, LowerState)
    decreases e, 0nat,
{
    match e.kind {
        ExprKind::Index { receiver, indices } => {
            let (place, s1) = lower_opt(env, receiver, st);
            let (ts, after) = lower_list(env, indices@, s1);
            (place_tree(seq![place] + ts), after)
        },
        _ => (place_tree(seq![error_tree()] + Seq::empty()), st),
    }
}

/// Whether an expression is a subscript of something.
pub open spec fn is_subscript(e: Expr) -> bool {
    e.kind matches ExprKind::Index { receiver, .. } && receiver is Some
}

pub open spec fn lower_index_assign(
    env: LowerEnv,
    s: Store,
    span: (u32, u32),
    st: LowerState,
) -> (Option<Tree>, LowerState)
    decreases s, 1nat,
{
    match s.target {
        Some(t) => if is_subscript(*t) {
            let (place, s1) = lower_subscript(env, *t, st);
            lower_index_value(env, s, t.range, place, span, s1)
        } else {
            (None, st)
        },
        None => (None, st),
    }
}

/// The rest of a subscript store, once its place is lowered.
pub open spec fn lower_index_value(
    env: LowerEnv,
    s: Store,
    range: Span,
    place: Tree,
    span: (u32, u32),
    st: LowerState,
) -> (Option<Tree>, LowerState)
    decreases s, 0nat,
{
    match s.value {
        Some(v) => {
            let (x, after) = lower_expr(env, *v, st);
            (store_tree(env, range, place, place_op(s.op), x, span), after)
        },
        None => (None, st),
    }
}

/// A subscript store, if the read it needs is there.
pub open spec fn store_tree(
    env: LowerEnv,
    range: Span,
    place: Tree,
    op: AssignOp,
    value: Tree,
    span: (u32, u32),
) -> Option<Tree> {
    match store_pair(env, range, op) {
        Some(row) => Some(index_assign_tree(place, row.1, row.0, op, value, span)),
        None => None,
    }
}

/// The store and the read of a subscript store, if the read is there where it is
/// needed.
pub open spec fn store_pair(env: LowerEnv, range: Span, op: AssignOp) -> Option<
    (RuntimeSymbol, Option<RuntimeSymbol>),
> {
    match store_routines(env, range, op) {
        Some(row) => match row.read {
            Some(get) => Some((row.put, get)),
            None => None,
        },
        None => None,
    }
}

pub open spec fn lower_field_assign(
    env: LowerEnv,
    s: Store,
    span: (u32, u32),
    st: LowerState,
) -> (Option<Tree>, LowerState)
    decreases s, 0nat,
{
    match s.target {
        Some(t) => {
            let (place, s1) = lower_field_place(env, *t, st);
            match place {
                Some(p) => match s.value {
                    Some(v) => {
                        let (x, after) = lower_expr(env, *v, s1);
                        (Some(field_assign_tree(p.0, p.1, place_op(s.op), x, span)), after)
                    },
                    None => (None, s1),
                },
                None => (None, s1),
            }
        },
        None => (None, st),
    }
}

// ---------------------------------------------------------------------------
// Items
// ---------------------------------------------------------------------------

/// A function, unless it has no name, no symbol or no inferred type.
pub open spec fn lower_fn(env: LowerEnv, item: FnItem, st: LowerState) -> (
    Option<FnView>,
    LowerState,
) {
    match item.name {
        Some(n) => match at(env.decls, n.range) {
            Some(symbol) => match lookup(env.names, symbol) {
                Some(s) => match s.scheme {
                    Some(scheme) => {
                        let fn_type = env.db.resolve(scheme.body);
                        let (body, after) = match item.body {
                            Some(b) => lower_block(env, b, st),
                            None => (unit_block(item.range.pair()), st),
                        };
                        (
                            Some(
                                FnView {
                                    symbol,
                                    name: n.text@,
                                    params: lower_params(env, item.params@),
                                    return_type: match fn_type {
                                        Type::Func(_, r) => *r,
                                        _ => Type::Unit,
                                    },
                                    body,
                                    fn_type,
                                    span: item.range.pair(),
                                },
                            ),
                            after,
                        )
                    },
                    None => (None, st),
                },
                None => (None, st),
            },
            None => (None, st),
        },
        None => (None, st),
    }
}

/// The functions and the top-level statements of a file, each in source order.
pub open spec fn lower_items(env: LowerEnv, items: Seq<TopLevel>, st: LowerState) -> (
    Seq<FnView>,
    Seq<Tree>,
    LowerState,
)
    decreases items.len(),
{
    if items.len() == 0 {
        (Seq::empty(), Seq::empty(), st)
    } else {
        let (fns, stmts, before) = lower_items(env, items.drop_last(), st);
        match items.last() {
            TopLevel::Fn(f) => {
                let (lowered, after) = lower_fn(env, f, before);
                match lowered {
                    Some(v) => (fns.push(v), stmts, after),
                    None => (fns, stmts, after),
                }
            },
            TopLevel::Stmt(s) => {
                let (lowered, after) = lower_stmt(env, s, before);
                match lowered {
                    Some(t) => (fns, stmts.push(t), after),
                    None => (fns, stmts, after),
                }
            },
            _ => (fns, stmts, before),
        }
    }
}

/// Whether a file has something to run.
pub open spec fn has_stmts(items: Seq<TopLevel>) -> bool {
    exists|i: int| 0 <= i < items.len() && (#[trigger] items[i]) is Stmt
}

/// The function that runs a file's top-level statements, for no value.
pub open spec fn entry_fn(symbol: SymbolId, stmts: Seq<Tree>, span: (u32, u32)) -> FnView {
    FnView {
        symbol,
        name: "<entry>"@,
        params: Seq::empty(),
        return_type: Type::Unit,
        body: block_of(stmts, error_tree()),
        fn_type: Type::Func(TypeList::Nil, Box::new(Type::Unit)),
        span,
    }
}

/// The symbols that some assignment writes.
pub open spec fn reassigned(names: Seq<SymbolView>) -> Seq<SymbolId>
    decreases names.len(),
{
    if names.len() == 0 {
        Seq::empty()
    } else {
        let before = reassigned(names.drop_last());
        if names.last().reassigned {
            before.push(names.last().id)
        } else {
            before
        }
    }
}

/// The id of the function that runs a file's top-level statements: the next one
/// the table would hand out.
pub open spec fn entry_id(names: Seq<SymbolView>) -> SymbolId {
    SymbolId(names.len() as u32)
}

/// What lowering starts from.
pub open spec fn nothing_yet() -> LowerState {
    LowerState { diags: Seq::empty(), closures: 0, escaping: Seq::empty() }
}

/// The contents of a lowered file.
pub ghost struct ModuleView {
    pub items: Seq<FnView>,
    pub diags: Seq<DiagView>,
    pub escaping: Seq<SymbolId>,
    pub reassigned: Seq<SymbolId>,
}

/// A file's functions in source order, then the function that runs its
/// statements, where it has any.
pub open spec fn lower_module(env: LowerEnv, items: Seq<TopLevel>, range: Span) -> ModuleView {
    let (fns, stmts, st) = lower_items(env, items, nothing_yet());
    ModuleView {
        items: if has_stmts(items) {
            fns.push(entry_fn(entry_id(env.names), stmts, range.pair()))
        } else {
            fns
        },
        diags: st.diags,
        escaping: st.escaping,
        reassigned: reassigned(env.names),
    }
}

// ---------------------------------------------------------------------------
// Laws
// ---------------------------------------------------------------------------

/// Whether fields are in declaration order.
pub open spec fn in_order(s: Seq<(u32, Tree)>) -> bool {
    forall|i: int, j: int| 0 <= i < j < s.len() ==> (#[trigger] s[i]).0 <= (#[trigger] s[j]).0
}

proof fn lemma_insert_in_order(s: Seq<(u32, Tree)>, f: (u32, Tree))
    requires
        in_order(s),
    ensures
        in_order(insert_field(s, f)),
        insert_field(s, f).len() == s.len() + 1,
        forall|i: int|
            0 <= i < s.len() + 1 ==> (#[trigger] insert_field(s, f)[i]).0 <= f.0 || s.contains(
                insert_field(s, f)[i],
            ),
        insert_field(s, f).to_multiset() == s.to_multiset().insert(f),
    decreases s.len(),
{
    broadcast use vstd::seq_lib::group_to_multiset_ensures;

    let r = insert_field(s, f);
    if s.len() == 0 || s.last().0 <= f.0 {
        assert forall|i: int| 0 <= i < r.len() implies (#[trigger] r[i]).0 <= f.0 || s.contains(
            r[i],
        ) by {
            if i < s.len() {
                assert(r[i] == s[i]);
            }
        }
    } else {
        let front = s.drop_last();
        assert(in_order(front)) by {
            assert forall|i: int, j: int| 0 <= i < j < front.len() implies (#[trigger] front[i]).0
                <= (#[trigger] front[j]).0 by {
                assert(front[i] == s[i] && front[j] == s[j]);
            }
        }
        lemma_insert_in_order(front, f);
        let b = insert_field(front, f);
        assert forall|i: int| 0 <= i < b.len() implies (#[trigger] b[i]).0 <= s.last().0 by {
            if b[i].0 > f.0 {
                assert(front.contains(b[i]));
                let k = choose|k: int| 0 <= k < front.len() && front[k] == b[i];
                assert(s[k] == b[i]);
            }
        }
        assert forall|i: int, j: int| 0 <= i < j < r.len() implies (#[trigger] r[i]).0 <= (
        #[trigger] r[j]).0 by {
            assert(r[i] == b[i]);
            if j < b.len() {
                assert(r[j] == b[j]);
            }
        }
        assert forall|i: int| 0 <= i < r.len() implies (#[trigger] r[i]).0 <= f.0 || s.contains(
            r[i],
        ) by {
            if i < b.len() {
                assert(r[i] == b[i]);
                if b[i].0 > f.0 {
                    let k = choose|k: int| 0 <= k < front.len() && front[k] == b[i];
                    assert(s[k] == b[i]);
                }
            } else {
                assert(s[s.len() - 1] == r[i]);
            }
        }
        assert(s =~= front.push(s.last()));
        assert(r =~= b.push(s.last()));
        assert(r.to_multiset() =~= s.to_multiset().insert(f));
    }
}

/// However a record literal orders its fields, they come out in declaration
/// order.
pub proof fn law_record_fields_in_order(
    env: LowerEnv,
    fields: Seq<FieldInit>,
    ty: Type,
    st: LowerState,
)
    ensures
        in_order(lower_fields(env, fields, ty, st).0),
    decreases fields.len(),
{
    if fields.len() > 0 {
        law_record_fields_in_order(env, fields.drop_last(), ty, st);
        let (fs, before) = lower_fields(env, fields.drop_last(), ty, st);
        let field = fields.last();
        if let (Some(name), Type::Record(def, _)) = (field.name, ty) {
            if let Some(i) = env.db.field_index(def, name.text@) {
                let t = match field.expr {
                    Some(e) => lower_expr(env, *e, before).0,
                    None => match env.symbol_at(name.range) {
                        Some(symbol) => leaf(
                            Node::Path(symbol),
                            env.symbol_type(symbol),
                            name.range.pair(),
                        ),
                        None => error_tree(),
                    },
                };
                lemma_insert_in_order(fs, (i as u32, t));
            }
        }
    }
}

/// A captured name is held by a shared cell exactly when something reassigns
/// it, and what escapes through a closure is then recorded.
pub proof fn law_cells_are_for_reassigned_names(
    env: LowerEnv,
    fs: Seq<FreeVar>,
    held: Seq<SymbolId>,
    i: int,
)
    requires
        0 <= i < fs.len(),
    ensures
        captures(env, fs)[i].kind == CaptureKind::ByCell <==> (lookup(
            env.names,
            fs[i].symbol,
        ) matches Some(s) && s.reassigned),
        captures(env, fs)[i].kind == CaptureKind::ByCell ==> escaping(
            held,
            captures(env, fs),
        ).contains(fs[i].symbol),
{
    lemma_escaping(held, captures(env, fs));
}

pub proof fn lemma_escaping(held: Seq<SymbolId>, cs: Seq<CaptureView>)
    ensures
        forall|i: int|
            0 <= i < cs.len() && (#[trigger] cs[i]).kind == CaptureKind::ByCell ==> escaping(
                held,
                cs,
            ).contains(cs[i].symbol),
        forall|x: SymbolId| held.contains(x) ==> #[trigger] escaping(held, cs).contains(x),
        forall|x: SymbolId| #[trigger]
            escaping(held, cs).contains(x) ==> held.contains(x) || exists|i: int|
                0 <= i < cs.len() && (#[trigger] cs[i]).kind == CaptureKind::ByCell && cs[i].symbol
                    == x,
    decreases cs.len(),
{
    if cs.len() > 0 {
        let front = cs.drop_last();
        lemma_escaping(held, front);
        let b = escaping(held, front);
        let e = escaping(held, cs);
        let c = cs.last();
        assert forall|x: SymbolId| b.contains(x) implies #[trigger] e.contains(x) by {
            let k = choose|k: int| 0 <= k < b.len() && b[k] == x;
            assert(e[k] == x);
        }
        assert forall|i: int| 0 <= i < cs.len() && (#[trigger] cs[i]).kind
            == CaptureKind::ByCell implies e.contains(cs[i].symbol) by {
            if i < front.len() {
                assert(front[i] == cs[i]);
                assert(b.contains(front[i].symbol));
            } else if !b.contains(c.symbol) {
                assert(e[b.len() as int] == c.symbol);
            }
        }
        assert forall|x: SymbolId| #[trigger] e.contains(x) implies held.contains(x)
            || exists|i: int|
            0 <= i < cs.len() && (#[trigger] cs[i]).kind == CaptureKind::ByCell && cs[i].symbol
                == x by {
            if b.contains(x) {
                if !held.contains(x) {
                    let k = choose|k: int|
                        0 <= k < front.len() && (#[trigger] front[k]).kind == CaptureKind::ByCell
                            && front[k].symbol == x;
                    assert(cs[k] == front[k]);
                }
            } else {
                assert(cs[cs.len() - 1].symbol == x);
            }
        }
    }
}

/// Closures are named apart: two numbers give two names.
pub proof fn law_closure_names_differ(a: u64, b: u64)
    ensures
        closure_name(a) == closure_name(b) ==> a == b,
{
    if closure_name(a) == closure_name(b) {
        let head = "__closure_"@;
        assert(closure_name(a).skip(head.len() as int) =~= decimal_digits(a as nat));
        assert(closure_name(b).skip(head.len() as int) =~= decimal_digits(b as nat));
        lemma_decimal_injective(a as nat, b as nat);
    }
}

/// A file's functions keep their order, and what runs comes last, exactly when
/// there is something to run.
pub proof fn law_entry_point_comes_last(env: LowerEnv, items: Seq<TopLevel>, range: Span)
    ensures
        has_stmts(items) ==> lower_module(env, items, range).items.last().name == "<entry>"@,
        has_stmts(items) ==> lower_module(env, items, range).items.drop_last() == lower_items(
            env,
            items,
            nothing_yet(),
        ).0,
        !has_stmts(items) ==> lower_module(env, items, range).items == lower_items(
            env,
            items,
            nothing_yet(),
        ).0,
{
    let fns = lower_items(env, items, nothing_yet()).0;
    if has_stmts(items) {
        assert(lower_module(env, items, range).items.drop_last() =~= fns);
    }
}

/// The function that runs a file's statements has an id that no symbol has.
pub proof fn law_no_symbol_is_the_entry_point(names: Seq<SymbolView>)
    requires
        names.len() <= u32::MAX,
    ensures
        lookup(names, entry_id(names)) is None,
        ids_agree(names) ==> forall|i: int|
            0 <= i < names.len() ==> (#[trigger] names[i]).id != entry_id(names),
{
}

} // verus!
