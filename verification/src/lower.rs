//! Lowering: an analyzed file into a tree that carries a type on every node.
//!
//! Each node's type is read from what inference recorded, never derived again.
//! A node inference recorded nothing for is reported, so that malformed input
//! never reaches code generation unnoticed.
use vstd::prelude::*;
use vstd::string::*;

use crate::analysis::{Analysis, CallSite, MethodEntry, MethodLowering, MethodRef};
use crate::ast::{
    AssignToken, BinToken, Block, Expr, ExprKind, FnItem, Ident, InterpPart, LitToken, Param,
    PatternKind, PlaceAssignOp, SourceFile, Stmt, StmtKind, Store, TopLevel, UnaryToken,
};
use crate::capture::{analyze, FreeVar, ResolvedRef};
use crate::lower_spec;
use crate::lower_spec::{LowerEnv, LowerState, StoreRoutines};
use crate::name_table::NameTable;
use crate::pattern::PatternBuilder;
use crate::source::{
    copy_diags, decimal, diag_views, push_diag, text, text2, text3, DiagCode, Diagnostic,
    FileId, FileSpan, Span,
};
use crate::symbol::{Symbol, SymbolId, SymbolKind, SymbolView};
use crate::tables::{at, NodeMap, SpanMap};
use crate::tree::{
    arm_patterns, arm_trees, block_tree, capture_views, expr_tree, expr_trees, expr_ty,
    field_indices, field_trees, hole_trees, item_views, leaf, lemma_trees_first, lemma_trees_push,
    opt_block_trees, opt_expr_trees, param_views, pattern_view, stmt_tree, stmt_trees,
    texts_before, AssignOp, BinOp, Capture, CaptureKind, InterpHole, Lit, Node, Purity,
    RuntimeSymbol, Tree, TypedBlock, TypedExpr, TypedField, TypedFn, TypedItem, TypedMatchArm,
    TypedModule, TypedParam, TypedPattern, TypedStmt, UnaryOp,
};
use crate::typedb::TypeDb;
use crate::types::{EnumDefId, Type, TypeList};

verus! {

/// The name of the function that holds a file's top-level statements. No
/// program can write it, so none can declare or call it.
pub const ENTRY_NAME: &'static str = "<entry>";

/// The entry point of a compiled module, given which function names it defines:
/// the top-level statements where there are any, else a declared `main`.
pub fn entry_point<F: Fn(&str) -> bool>(defines: F) -> (r: Option<&'static str>)
    requires
        forall|s: &str| s@ == ENTRY_NAME@ || s@ == "main"@ ==> call_requires(defines, (s,)),
    ensures
        match r {
            Some(name) => {
                ||| name@ == ENTRY_NAME@ && exists|e: &str|
                    e@ == ENTRY_NAME@ && call_ensures(defines, (e,), true)
                ||| {
                    &&& name@ == "main"@
                    &&& exists|e: &str| e@ == ENTRY_NAME@ && call_ensures(defines, (e,), false)
                    &&& exists|m: &str| m@ == "main"@ && call_ensures(defines, (m,), true)
                }
            },
            None => {
                &&& exists|e: &str| e@ == ENTRY_NAME@ && call_ensures(defines, (e,), false)
                &&& exists|m: &str| m@ == "main"@ && call_ensures(defines, (m,), false)
            },
        },
{
    let entry = defines(ENTRY_NAME);
    assert(call_ensures(defines, (ENTRY_NAME,), entry));
    if entry {
        return Some(ENTRY_NAME);
    }
    let main = defines("main");
    assert(call_ensures(defines, ("main",), main));
    if main {
        Some("main")
    } else {
        None
    }
}

/// Lowers one file. What it reads never changes; what it gathers does.
struct Lowerer<'a> {
    file: FileId,
    db: &'a TypeDb,
    names: &'a NameTable,
    refs: &'a SpanMap<ResolvedRef>,
    decls: &'a SpanMap<SymbolId>,
    ref_types: &'a SpanMap<Type>,
    call_sites: &'a SpanMap<CallSite>,
    expr_types: &'a NodeMap<Type>,
    method_refs: &'a SpanMap<MethodRef>,
    diagnostics: Vec<Diagnostic>,
    closures: u64,
    escaping: Vec<SymbolId>,
}

fn assign_op_of(tok: Option<AssignToken>) -> (r: AssignOp)
    ensures
        r == lower_spec::assign_op(tok),
{
    match tok {
        Some(AssignToken::PlusEq) => AssignOp::AddAssign,
        Some(AssignToken::MinusEq) => AssignOp::SubAssign,
        Some(AssignToken::StarEq) => AssignOp::MulAssign,
        Some(AssignToken::SlashEq) => AssignOp::DivAssign,
        Some(AssignToken::PercentEq) => AssignOp::RemAssign,
        _ => AssignOp::Assign,
    }
}

fn place_op_of(op: PlaceAssignOp) -> (r: AssignOp)
    ensures
        r == lower_spec::place_op(op),
{
    match op {
        PlaceAssignOp::Store | PlaceAssignOp::Min | PlaceAssignOp::Max => AssignOp::Assign,
        PlaceAssignOp::Plus => AssignOp::AddAssign,
        PlaceAssignOp::Minus => AssignOp::SubAssign,
        PlaceAssignOp::Times => AssignOp::MulAssign,
        PlaceAssignOp::Div => AssignOp::DivAssign,
        PlaceAssignOp::Rem => AssignOp::RemAssign,
    }
}

fn bin_op_of(tok: Option<BinToken>) -> (r: BinOp)
    ensures
        r == lower_spec::bin_op(tok),
{
    match tok {
        Some(BinToken::Plus) => BinOp::Add,
        Some(BinToken::Minus) => BinOp::Sub,
        Some(BinToken::Star) => BinOp::Mul,
        Some(BinToken::Slash) => BinOp::Div,
        Some(BinToken::Percent) => BinOp::Rem,
        Some(BinToken::Eq2) => BinOp::Eq,
        Some(BinToken::Neq) => BinOp::Neq,
        Some(BinToken::Lt) => BinOp::Lt,
        Some(BinToken::Gt) => BinOp::Gt,
        Some(BinToken::LtEq) => BinOp::Le,
        Some(BinToken::GtEq) => BinOp::Ge,
        Some(BinToken::Pipe2) => BinOp::LogicalOr,
        Some(BinToken::Amp2) => BinOp::LogicalAnd,
        None => BinOp::Add,
    }
}

fn unary_op_of(tok: Option<UnaryToken>) -> (r: UnaryOp)
    ensures
        r == lower_spec::unary_op(tok),
{
    match tok {
        Some(UnaryToken::Bang) => UnaryOp::Not,
        _ => UnaryOp::Neg,
    }
}

fn routine_of(l: MethodLowering) -> (r: Option<RuntimeSymbol>)
    ensures
        r == lower_spec::routine(l),
{
    match l {
        MethodLowering::RuntimeSymbol(s) => Some(s),
        MethodLowering::ScalarPrimitive(s) => Some(s),
        MethodLowering::Intrinsic(_) => None,
    }
}

fn index_read_of(op: AssignOp, entry: MethodEntry) -> (r: Option<Option<RuntimeSymbol>>)
    ensures
        r == lower_spec::index_read(op, entry),
{
    if op == AssignOp::Assign {
        return Some(None);
    }
    match entry.index_read {
        Some(MethodLowering::RuntimeSymbol(s)) => Some(Some(s)),
        _ => None,
    }
}

fn literal_of(tok: &Option<LitToken>) -> (r: Lit)
    ensures
        r@ == lower_spec::expr_lit(*tok),
{
    match tok {
        Some(LitToken::Int(v, _)) => match v {
            Some(n) => Lit::Int(*n),
            None => Lit::Int(0),
        },
        Some(LitToken::Float(b)) => Lit::Float(*b),
        Some(LitToken::Text(s)) => Lit::Text(s.clone()),
        Some(LitToken::Char(c)) => match c {
            Some(n) => Lit::Char(*n),
            None => Lit::Char(0),
        },
        Some(LitToken::True) => Lit::Bool(true),
        Some(LitToken::False) => Lit::Bool(false),
        Some(LitToken::Template) => Lit::Unit,
        Some(LitToken::Other) => Lit::Int(0),
        None => Lit::Int(0),
    }
}

fn error_expr() -> (r: TypedExpr)
    ensures
        expr_tree(r) == lower_spec::error_tree(),
{
    unit_expr((0, 0))
}

fn unit_expr(span: (u32, u32)) -> (r: TypedExpr)
    ensures
        expr_tree(r) == lower_spec::unit_at(span),
{
    TypedExpr::Lit { value: Lit::Unit, ty: Type::Unit, span }
}

/// A block from its statements and its value.
fn block_from(stmts: Vec<TypedStmt>, tail: TypedExpr) -> (r: TypedBlock)
    ensures
        block_tree(r) == lower_spec::block_of(stmt_trees(stmts@), expr_tree(tail)),
{
    let ty = expr_ty(&tail);
    TypedBlock { stmts, tail, ty }
}

fn value_block(tail: TypedExpr) -> (r: TypedBlock)
    ensures
        block_tree(r) == lower_spec::block_of(Seq::empty(), expr_tree(tail)),
{
    let stmts: Vec<TypedStmt> = Vec::new();
    assert(stmt_trees(stmts@) =~= Seq::empty());
    block_from(stmts, tail)
}

fn unit_block(span: (u32, u32)) -> (r: TypedBlock)
    ensures
        block_tree(r) == lower_spec::unit_block(span),
{
    value_block(unit_expr(span))
}

fn var_stmt(symbol: SymbolId, name: String, init: TypedExpr, span: (u32, u32)) -> (r: TypedStmt)
    ensures
        stmt_view(r) == lower_spec::var_tree(symbol, name@, expr_tree(init), span),
{
    proof {
        reveal(stmt_view);
    }
    let ty = expr_ty(&init);
    TypedStmt::Var { symbol, name, ty, init, span }
}

fn assign_stmt(
    symbol: SymbolId,
    name: String,
    op: AssignOp,
    value: TypedExpr,
    span: (u32, u32),
) -> (r: TypedStmt)
    ensures
        stmt_view(r) == lower_spec::assign_tree(symbol, name@, op, expr_tree(value), span),
{
    proof {
        reveal(stmt_view);
    }
    TypedStmt::Assign { symbol, name, op, value, span }
}

fn index_assign_stmt(
    place: TypedExpr,
    get: Option<RuntimeSymbol>,
    put: RuntimeSymbol,
    op: AssignOp,
    value: TypedExpr,
    span: (u32, u32),
) -> (r: TypedStmt)
    requires
        is_place(place),
    ensures
        stmt_view(r) == lower_spec::index_assign_tree(
            expr_tree(place),
            get,
            put,
            op,
            expr_tree(value),
            span,
        ),
{
    proof {
        reveal(stmt_view);
    }
    match place {
        TypedExpr::Tuple { elements, .. } => {
            proof {
                lemma_trees_first(elements@);
            }
            let ghost all = elements@;
            let mut indices = elements;
            let receiver = indices.remove(0);
            assert(indices@ =~= all.skip(1));
            TypedStmt::IndexAssign { receiver, indices, get, set: put, op, value, span }
        },
        _ => TypedStmt::Expr(value),
    }
}

/// Whether an expression is a tuple of at least one element.
spec fn is_place(e: TypedExpr) -> bool {
    e matches TypedExpr::Tuple { elements, .. } && elements@.len() > 0
}

/// The tuple of `first` and `rest`.
fn place_of(first: TypedExpr, rest: Vec<TypedExpr>) -> (r: TypedExpr)
    ensures
        expr_tree(r) == lower_spec::place_tree(seq![expr_tree(first)] + expr_trees(rest@)),
        is_place(r),
{
    let mut all = rest;
    all.insert(0, first);
    assert(all@ =~= seq![first] + rest@);
    proof {
        lemma_trees_first(all@);
        assert(all@.skip(1) =~= rest@);
    }
    TypedExpr::Tuple { elements: all, ty: Type::Unit, span: (0, 0) }
}

fn no_store(place: TypedExpr) -> (r: Option<TypedStmt>)
    ensures
        r is None,
{
    None
}

fn subscript(e: &Expr) -> (r: bool)
    ensures
        r == lower_spec::is_subscript(*e),
{
    match &e.kind {
        ExprKind::Index { receiver, .. } => receiver.is_some(),
        _ => false,
    }
}

fn field_assign_stmt(
    receiver: TypedExpr,
    field_idx: u32,
    op: AssignOp,
    value: TypedExpr,
    span: (u32, u32),
) -> (r: TypedStmt)
    ensures
        stmt_view(r) == lower_spec::field_assign_tree(
            expr_tree(receiver),
            field_idx,
            op,
            expr_tree(value),
            span,
        ),
{
    proof {
        reveal(stmt_view);
    }
    TypedStmt::FieldAssign { receiver, field_idx, op, value, span }
}

fn effect_stmt(e: TypedExpr) -> (r: TypedStmt)
    ensures
        stmt_view(r) == lower_spec::effect(expr_tree(e)),
{
    proof {
        reveal(stmt_view);
    }
    TypedStmt::Expr(e)
}

proof fn lemma_stmts_push(s: Seq<TypedStmt>, t: TypedStmt)
    ensures
        stmt_trees(s.push(t)) == stmt_trees(s).push(stmt_tree(t)),
{
    assert(s.push(t).drop_last() =~= s);
}

fn push_stmt(stmts: &mut Vec<TypedStmt>, s: TypedStmt)
    ensures
        stmt_trees(final(stmts)@) == stmt_trees(old(stmts)@).push(stmt_view(s)),
{
    proof {
        reveal(stmt_view);
        lemma_stmts_push(stmts@, s);
    }
    stmts.push(s);
}

/// Puts a field after the last one whose index is not greater.
fn place_field(fields: &mut Vec<TypedField>, index: u32, init: TypedExpr)
    ensures
        field_pairs(final(fields)@) == lower_spec::insert_field(
            field_pairs(old(fields)@),
            (index, expr_tree(init)),
        ),
{
    let ghost start = fields@;
    let mut i: usize = fields.len();
    assert(start.take(i as int) =~= start);
    while i > 0 && fields[i - 1].index > index
        invariant
            i <= fields@.len(),
            fields@ == start,
            lower_spec::insert_field(field_pairs(start), (index, expr_tree(init)))
                == lower_spec::insert_field(
                field_pairs(start.take(i as int)),
                (index, expr_tree(init)),
            ) + field_pairs(start.skip(i as int)),
        decreases i,
    {
        let ghost f = (index, expr_tree(init));
        let ghost head = field_pairs(start.take(i as int));
        i -= 1;
        assert(head.drop_last() =~= field_pairs(start.take(i as int)));
        assert(head.last() == (start[i as int].index, expr_tree(start[i as int].init)));
        assert(field_pairs(start.skip(i as int)) =~= seq![head.last()] + field_pairs(
            start.skip(i + 1),
        ));
        assert(lower_spec::insert_field(head, f) + field_pairs(start.skip(i + 1))
            =~= lower_spec::insert_field(head.drop_last(), f) + field_pairs(
            start.skip(i as int),
        ));
    }
    let ghost f = (index, expr_tree(init));
    let ghost head = field_pairs(start.take(i as int));
    assert(lower_spec::insert_field(head, f) == head.push(f)) by {
        if i > 0 {
            assert(head.last().0 == start[i - 1].index);
        }
    }
    fields.insert(i, TypedField { index, init });
    assert(field_pairs(fields@) =~= head.push(f) + field_pairs(start.skip(i as int)));
}

/// The fields of a record literal, as pairs.
pub open spec fn field_pairs(s: Seq<TypedField>) -> Seq<(u32, Tree)> {
    s.map_values(|f: TypedField| (f.index, expr_tree(f.init)))
}

proof fn lemma_field_pairs(s: Seq<TypedField>)
    ensures
        field_indices(s) == field_pairs(s).map_values(|f: (u32, Tree)| f.0),
        field_trees(s) == field_pairs(s).map_values(|f: (u32, Tree)| f.1),
    decreases s.len(),
{
    assert(field_indices(s) =~= field_pairs(s).map_values(|f: (u32, Tree)| f.0));
    let trees = field_pairs(s).map_values(|f: (u32, Tree)| f.1);
    if s.len() > 0 {
        lemma_field_pairs(s.drop_last());
        let front = field_pairs(s.drop_last()).map_values(|f: (u32, Tree)| f.1);
        assert(trees =~= front.push(expr_tree(s.last().init)));
    } else {
        assert(trees =~= Seq::empty());
    }
}

impl<'a> Lowerer<'a> {
    spec fn env(self) -> LowerEnv {
        LowerEnv {
            file: self.file,
            db: self.db@,
            names: self.names@,
            refs: self.refs@,
            decls: self.decls@,
            ref_types: self.ref_types@,
            call_sites: self.call_sites@,
            expr_types: self.expr_types@,
            method_refs: self.method_refs@,
        }
    }

    spec fn state(self) -> LowerState {
        LowerState {
            diags: diag_views(self.diagnostics@),
            closures: self.closures,
            escaping: self.escaping@,
        }
    }

    fn file_span(&self, range: Span) -> (r: FileSpan)
        ensures
            r == self.env().at(range),
    {
        FileSpan::new(self.file, range)
    }

    fn symbol_type(&self, symbol: SymbolId) -> (r: Type)
        ensures
            r == self.env().symbol_type(symbol),
    {
        match self.names.get(symbol) {
            Some(s) => match &s.scheme {
                Some(scheme) => self.db.deep_resolve(&scheme.body),
                None => Type::Unit,
            },
            None => Type::Unit,
        }
    }

    fn symbol_at(&self, range: Span) -> (r: Option<SymbolId>)
        ensures
            r == self.env().symbol_at(range),
    {
        match self.refs.get(range) {
            Some(r) => Some(r.symbol),
            None => None,
        }
    }

    fn decl_at(&self, range: Span) -> (r: Option<SymbolId>)
        ensures
            r == at(self.env().decls, range),
    {
        match self.decls.get(range) {
            Some(s) => Some(*s),
            None => None,
        }
    }

    fn enum_variant_of(&self, symbol: SymbolId) -> (r: Option<(EnumDefId, usize)>)
        ensures
            match self.env().variant_of(symbol) {
                Some((def, i)) => r matches Some((d, k)) && d == def && k == i,
                None => r is None,
            },
    {
        let Some(sym) = self.names.get(symbol) else {
            return None;
        };
        if sym.kind != SymbolKind::EnumVariant {
            return None;
        }
        let Some(scheme) = &sym.scheme else {
            return None;
        };
        let body = self.db.deep_resolve(&scheme.body);
        let result: &Type = match &body {
            Type::Func(_, r) => r,
            _ => &body,
        };
        match result {
            Type::Enum(def, _) => match self.db.variant_index(*def, &sym.name) {
                Some(i) => Some((*def, i)),
                None => None,
            },
            _ => None,
        }
    }

    fn variant_has_payload(&self, def: EnumDefId, i: usize) -> (r: bool)
        ensures
            r == self.env().has_payload(def, i as nat),
    {
        if (def.0 as usize) < self.db.enums.len() {
            let e = &self.db.enums[def.0 as usize];
            assert(self.db@.enums[def.0 as int] == e@);
            if i < e.variants.len() {
                assert(e@.variants[i as int] == e.variants@[i as int]@);
                return match &e.variants[i].payload {
                    TypeList::Nil => false,
                    _ => true,
                };
            }
        }
        false
    }

    fn node_ty(&mut self, e: &Expr) -> (r: Type)
        ensures
            final(self).env() == old(self).env(),
            (r, final(self).state()) == lower_spec::node_ty(
                old(self).env(),
                *e,
                old(self).state(),
            ),
    {
        match self.expr_types.get(e.key()) {
            Some(t) => self.db.deep_resolve(t),
            None => {
                let message = text3(
                    "internal: inference recorded no type for this ",
                    e.syntax_kind().name(),
                    " expression",
                );
                let at = self.file_span(e.range);
                push_diag(
                    &mut self.diagnostics,
                    Diagnostic::error(at, DiagCode::InternalMissingType, message),
                );
                Type::Unit
            },
        }
    }

    fn build_pattern(&mut self, pat: &crate::ast::Pattern, ty: &Type) -> (r: TypedPattern)
        ensures
            final(self).env() == old(self).env(),
            final(self).state() == (LowerState {
                diags: crate::pattern::build_spec(
                    old(self).env().patterns(),
                    *pat,
                    *ty,
                    old(self).state().diags,
                ).1,
                ..old(self).state()
            }),
            pattern_view(r) == crate::pattern::build_spec(
                old(self).env().patterns(),
                *pat,
                *ty,
                old(self).state().diags,
            ).0,
    {
        let builder = PatternBuilder { file: self.file, db: self.db, decls: self.decls };
        builder.build(pat, ty, &mut self.diagnostics)
    }

    fn lower_param(&self, p: &Param) -> (r: Option<TypedParam>)
        ensures
            match lower_spec::lower_param(self.env(), *p) {
                Some(v) => r matches Some(x) && x@ == v,
                None => r is None,
            },
    {
        let slot: Option<(Span, Option<String>)> = match &p.name {
            Some(n) => Some((n.range, Some(n.text.clone()))),
            None => match p.wildcard {
                Some(range) => Some((range, Some(text("_")))),
                None => match &p.pattern {
                    Some(pat) => Some((pat.range, None)),
                    None => None,
                },
            },
        };
        match slot {
            Some((range, name)) => match self.decl_at(range) {
                Some(symbol) => Some(
                    TypedParam { symbol, name, ty: self.symbol_type(symbol) },
                ),
                None => None,
            },
            None => None,
        }
    }

    fn lower_params(&self, ps: &Vec<Param>) -> (r: Vec<TypedParam>)
        ensures
            param_views(r@) == lower_spec::lower_params(self.env(), ps@),
    {
        let mut out: Vec<TypedParam> = Vec::new();
        let mut i: usize = 0;
        assert(param_views(out@) =~= lower_spec::lower_params(self.env(), ps@.take(0)));
        while i < ps.len()
            invariant
                i <= ps@.len(),
                param_views(out@) == lower_spec::lower_params(self.env(), ps@.take(i as int)),
            decreases ps@.len() - i,
        {
            assert(ps@.take(i + 1).drop_last() =~= ps@.take(i as int));
            assert(ps@.take(i + 1).last() == ps@[i as int]);
            let ghost before = out@;
            if let Some(p) = self.lower_param(&ps[i]) {
                out.push(p);
                assert(param_views(out@) =~= param_views(before).push(p@));
            }
            i += 1;
        }
        assert(ps@.take(i as int) =~= ps@);
        out
    }

    fn lower_captures(&self, free: &Vec<FreeVar>) -> (r: Vec<Capture>)
        ensures
            capture_views(r@) == lower_spec::captures(self.env(), free@),
    {
        let mut out: Vec<Capture> = Vec::new();
        let mut i: usize = 0;
        while i < free.len()
            invariant
                i <= free@.len(),
                out@.len() == i,
                forall|j: int|
                    0 <= j < i ==> (#[trigger] out@[j])@ == lower_spec::capture_of(
                        self.env(),
                        free@[j],
                    ),
            decreases free@.len() - i,
        {
            let fv = free[i];
            let name = match self.names.get(fv.symbol) {
                Some(s) => s.name.clone(),
                None => {
                    let n = String::new();
                    assert(n@ =~= Seq::empty());
                    n
                },
            };
            let ty = match self.ref_types.get(fv.ref_range) {
                Some(t) => self.db.deep_resolve(t),
                None => self.symbol_type(fv.symbol),
            };
            let kind = match self.names.get(fv.symbol) {
                Some(s) => if s.reassigned {
                    CaptureKind::ByCell
                } else {
                    CaptureKind::ByValue
                },
                None => CaptureKind::ByValue,
            };
            out.push(Capture { symbol: fv.symbol, name, ty, kind });
            i += 1;
        }
        assert(capture_views(out@) =~= lower_spec::captures(self.env(), free@));
        out
    }

    /// Records the symbols captured by cell.
    fn note_escaping(&mut self, caught: &Vec<Capture>)
        ensures
            final(self).env() == old(self).env(),
            final(self).state() == (LowerState {
                escaping: lower_spec::escaping(
                    old(self).state().escaping,
                    capture_views(caught@),
                ),
                ..old(self).state()
            }),
    {
        let ghost cs = capture_views(caught@);
        let mut i: usize = 0;
        assert(cs.take(0) =~= Seq::empty());
        while i < caught.len()
            invariant
                i <= caught@.len(),
                cs == capture_views(caught@),
                self.env() == old(self).env(),
                self.state() == (LowerState {
                    escaping: lower_spec::escaping(
                        old(self).state().escaping,
                        cs.take(i as int),
                    ),
                    ..old(self).state()
                }),
            decreases caught@.len() - i,
        {
            assert(cs.take(i + 1).drop_last() =~= cs.take(i as int));
            assert(cs.take(i + 1).last() == caught@[i as int]@);
            let symbol = caught[i].symbol;
            if caught[i].kind == CaptureKind::ByCell && !contains_symbol(&self.escaping, symbol) {
                self.escaping.push(symbol);
            }
            i += 1;
        }
        assert(cs.take(i as int) =~= cs);
    }

    fn fresh_closure_name(&mut self) -> (r: String)
        ensures
            final(self).env() == old(self).env(),
            r@ == lower_spec::closure_name(old(self).state().closures),
            final(self).state() == (LowerState {
                closures: lower_spec::next_closure(old(self).state().closures),
                ..old(self).state()
            }),
    {
        let n: u64 = self.closures;
        self.closures = n.wrapping_add(1);
        text2("__closure_", &decimal(n))
    }

    // --- statements --------------------------------------------------------

    fn lower_block(&mut self, b: &Block) -> (r: TypedBlock)
        ensures
            final(self).env() == old(self).env(),
            (block_tree(r), final(self).state()) == lower_spec::lower_block(
                old(self).env(),
                *b,
                old(self).state(),
            ),
        decreases b, 0nat,
    {
        let mut stmts: Vec<TypedStmt> = Vec::new();
        let mut tail: Option<TypedExpr> = None;
        let mut i: usize = 0;
        let ghost env = self.env();
        let ghost st = self.state();
        assert(b.stmts@.take(0) =~= Seq::empty());
        assert(stmt_trees(stmts@) =~= Seq::empty());
        while i < b.stmts.len()
            invariant
                i <= b.stmts@.len(),
                self.env() == env,
                (stmt_trees(stmts@), opt_tree(tail), self.state()) == lower_spec::lower_stmts(
                    env,
                    b.stmts@.take(i as int),
                    st,
                ),
            decreases b.stmts@.len() - i,
        {
            assert(b.stmts@.take(i + 1).drop_last() =~= b.stmts@.take(i as int));
            assert(b.stmts@.take(i + 1).last() == b.stmts@[i as int]);
            if let Some(prev) = tail {
                push_stmt(&mut stmts, effect_stmt(prev));
            }
            tail = None;
            let s = &b.stmts[i];
            match &s.kind {
                StmtKind::Expr(Some(e)) => {
                    tail = Some(self.lower_expr(e));
                },
                _ => {
                    if let Some(lowered) = self.lower_stmt(s) {
                        push_stmt(&mut stmts, lowered);
                    }
                },
            }
            i += 1;
        }
        assert(b.stmts@.take(i as int) =~= b.stmts@);
        match tail {
            Some(t) => block_from(stmts, t),
            None => block_from(stmts, error_expr()),
        }
    }

    fn lower_stmt(&mut self, s: &Stmt) -> (r: Option<TypedStmt>)
        ensures
            final(self).env() == old(self).env(),
            (opt_stmt(r), final(self).state()) == lower_spec::lower_stmt(
                old(self).env(),
                *s,
                old(self).state(),
            ),
        decreases s, 6nat,
    {
        match &s.kind {
            StmtKind::Var { .. } => self.lower_var(s),
            StmtKind::Assign { .. } => self.lower_assign(s),
            StmtKind::PlaceAssign(store) => self.lower_place_assign(store, s.range.to_pair()),
            StmtKind::Expr(e) => self.lower_effect(e),
            StmtKind::Other => None,
        }
    }

    fn lower_effect(&mut self, e: &Option<Box<Expr>>) -> (r: Option<TypedStmt>)
        ensures
            final(self).env() == old(self).env(),
            (opt_stmt(r), final(self).state()) == lower_spec::lower_effect(
                old(self).env(),
                *e,
                old(self).state(),
            ),
        decreases e, 0nat,
    {
        match e {
            Some(e) => {
                let t = self.lower_expr(e);
                Some(effect_stmt(t))
            },
            None => None,
        }
    }

    fn lower_var(&mut self, s: &Stmt) -> (r: Option<TypedStmt>)
        ensures
            final(self).env() == old(self).env(),
            (opt_stmt(r), final(self).state()) == lower_spec::lower_var(
                old(self).env(),
                *s,
                old(self).state(),
            ),
        decreases s, 4nat,
    {
        let StmtKind::Var { name, init, .. } = &s.kind else {
            return None;
        };
        let Some(n) = name else {
            return self.lower_effect(init);
        };
        let Some(symbol) = self.decl_at(n.range) else {
            return None;
        };
        let Some(e) = init else {
            return None;
        };
        let value = self.lower_expr(e);
        Some(var_stmt(symbol, n.text.clone(), value, s.range.to_pair()))
    }

    fn lower_assign(&mut self, s: &Stmt) -> (r: Option<TypedStmt>)
        ensures
            final(self).env() == old(self).env(),
            (opt_stmt(r), final(self).state()) == lower_spec::lower_assign(
                old(self).env(),
                *s,
                old(self).state(),
            ),
        decreases s, 4nat,
    {
        let StmtKind::Assign { name, op, value } = &s.kind else {
            return None;
        };
        let Some(n) = name else {
            return None;
        };
        let Some(symbol) = self.symbol_at(n.range) else {
            return None;
        };
        let Some(e) = value else {
            return None;
        };
        let value = self.lower_expr(e);
        Some(assign_stmt(symbol, n.text.clone(), assign_op_of(*op), value, s.range.to_pair()))
    }

    fn lower_place_assign(&mut self, s: &Store, span: (u32, u32)) -> (r: Option<TypedStmt>)
        ensures
            final(self).env() == old(self).env(),
            (opt_stmt(r), final(self).state()) == lower_spec::lower_place_assign(
                old(self).env(),
                *s,
                span,
                old(self).state(),
            ),
        decreases s, 2nat,
    {
        let Some(t) = &s.target else {
            return None;
        };
        match &t.kind {
            ExprKind::Index { .. } => {
                match self.store_routines(t.range, place_op_of(s.op)) {
                    Some(_) => self.lower_index_assign(s, span),
                    None => None,
                }
            },
            ExprKind::FieldGet { .. } => self.lower_field_assign(s, span),
            _ => None,
        }
    }

    fn store_routines(&self, range: Span, op: AssignOp) -> (r: Option<StoreRoutines>)
        ensures
            r == lower_spec::store_routines(self.env(), range, op),
    {
        match self.method_refs.get(range) {
            Some(m) => match m.entry.lowering {
                MethodLowering::RuntimeSymbol(put) => Some(
                    StoreRoutines { put, read: index_read_of(op, m.entry) },
                ),
                _ => None,
            },
            None => None,
        }
    }

    fn store_pair(&self, range: Span, op: AssignOp) -> (r: Option<
        (RuntimeSymbol, Option<RuntimeSymbol>),
    >)
        ensures
            r == lower_spec::store_pair(self.env(), range, op),
    {
        let Some(row) = self.store_routines(range, op) else {
            return None;
        };
        match row.read {
            Some(get) => Some((row.put, get)),
            None => None,
        }
    }

    /// What a subscript is of and its indices, gathered as a tuple.
    fn lower_subscript(&mut self, e: &Expr) -> (r: TypedExpr)
        ensures
            final(self).env() == old(self).env(),
            (expr_tree(r), final(self).state()) == lower_spec::lower_subscript(
                old(self).env(),
                *e,
                old(self).state(),
            ),
            is_place(r),
        decreases e, 0nat,
    {
        match &e.kind {
            ExprKind::Index { receiver, indices } => {
                let place = self.lower_opt(receiver);
                let ts = self.lower_list(indices);
                place_of(place, ts)
            },
            _ => {
                let none: Vec<TypedExpr> = Vec::new();
                assert(expr_trees(none@) =~= Seq::empty());
                place_of(error_expr(), none)
            },
        }
    }

    fn lower_index_assign(&mut self, s: &Store, span: (u32, u32)) -> (r: Option<TypedStmt>)
        ensures
            final(self).env() == old(self).env(),
            (opt_stmt(r), final(self).state()) == lower_spec::lower_index_assign(
                old(self).env(),
                *s,
                span,
                old(self).state(),
            ),
        decreases s, 1nat,
    {
        let Some(t) = &s.target else {
            return None;
        };
        if !subscript(t) {
            return None;
        }
        let place = self.lower_subscript(t);
        self.lower_index_value(s, t.range, place, span)
    }

    fn lower_index_value(
        &mut self,
        s: &Store,
        range: Span,
        place: TypedExpr,
        span: (u32, u32),
    ) -> (r: Option<TypedStmt>)
        requires
            is_place(place),
        ensures
            final(self).env() == old(self).env(),
            (opt_stmt(r), final(self).state()) == lower_spec::lower_index_value(
                old(self).env(),
                *s,
                range,
                expr_tree(place),
                span,
                old(self).state(),
            ),
        decreases s, 0nat,
    {
        match &s.value {
            Some(v) => {
                let x = self.lower_expr(v);
                self.store_stmt(range, place, place_op_of(s.op), x, span)
            },
            None => no_store(place),
        }
    }

    fn store_stmt(
        &self,
        range: Span,
        place: TypedExpr,
        op: AssignOp,
        value: TypedExpr,
        span: (u32, u32),
    ) -> (r: Option<TypedStmt>)
        requires
            is_place(place),
        ensures
            opt_stmt(r) == lower_spec::store_tree(
                self.env(),
                range,
                expr_tree(place),
                op,
                expr_tree(value),
                span,
            ),
    {
        match self.store_pair(range, op) {
            Some((put, get)) => Some(index_assign_stmt(place, get, put, op, value, span)),
            None => None,
        }
    }

    fn lower_field_assign(&mut self, s: &Store, span: (u32, u32)) -> (r: Option<TypedStmt>)
        ensures
            final(self).env() == old(self).env(),
            (opt_stmt(r), final(self).state()) == lower_spec::lower_field_assign(
                old(self).env(),
                *s,
                span,
                old(self).state(),
            ),
        decreases s, 0nat,
    {
        let Some(t) = &s.target else {
            return None;
        };
        match self.lower_field_place(t) {
            Some((receiver, field_idx)) => {
                match &s.value {
                    Some(v) => {
                        let x = self.lower_expr(v);
                        Some(
                            field_assign_stmt(receiver, field_idx, place_op_of(s.op), x, span),
                        )
                    },
                    None => None,
                }
            },
            None => None,
        }
    }

    // --- expressions -------------------------------------------------------

    fn lower_opt(&mut self, e: &Option<Box<Expr>>) -> (r: TypedExpr)
        ensures
            final(self).env() == old(self).env(),
            (expr_tree(r), final(self).state()) == lower_spec::lower_opt(
                old(self).env(),
                *e,
                old(self).state(),
            ),
        decreases e, 0nat,
    {
        match e {
            Some(b) => self.lower_expr(b),
            None => error_expr(),
        }
    }

    fn lower_value(&mut self, e: &Option<Box<Expr>>) -> (r: Option<Box<TypedExpr>>)
        ensures
            final(self).env() == old(self).env(),
            (opt_expr_trees(r), final(self).state()) == lower_spec::lower_value(
                old(self).env(),
                *e,
                old(self).state(),
            ),
            r is Some <==> *e is Some,
        decreases e, 0nat,
    {
        match e {
            Some(b) => {
                let t = self.lower_expr(b);
                Some(Box::new(t))
            },
            None => None,
        }
    }

    fn lower_bound(&mut self, e: &Option<Box<Expr>>, span: (u32, u32)) -> (r: TypedExpr)
        ensures
            final(self).env() == old(self).env(),
            (expr_tree(r), final(self).state()) == lower_spec::lower_bound(
                old(self).env(),
                *e,
                span,
                old(self).state(),
            ),
        decreases e, 0nat,
    {
        match e {
            Some(b) => self.lower_expr(b),
            None => unit_expr(span),
        }
    }

    fn lower_list(&mut self, es: &Vec<Expr>) -> (r: Vec<TypedExpr>)
        ensures
            final(self).env() == old(self).env(),
            (expr_trees(r@), final(self).state()) == lower_spec::lower_list(
                old(self).env(),
                es@,
                old(self).state(),
            ),
        decreases es, 0nat,
    {
        let mut out: Vec<TypedExpr> = Vec::new();
        let mut i: usize = 0;
        let ghost env = self.env();
        let ghost st = self.state();
        assert(es@.take(0) =~= Seq::empty());
        assert(expr_trees(out@) =~= Seq::empty());
        while i < es.len()
            invariant
                i <= es@.len(),
                self.env() == env,
                (expr_trees(out@), self.state()) == lower_spec::lower_list(
                    env,
                    es@.take(i as int),
                    st,
                ),
            decreases es@.len() - i,
        {
            assert(es@.take(i + 1).drop_last() =~= es@.take(i as int));
            let t = self.lower_expr(&es[i]);
            proof {
                lemma_trees_push(out@, t);
            }
            out.push(t);
            i += 1;
        }
        assert(es@.take(i as int) =~= es@);
        out
    }

    fn lower_opt_block(&mut self, b: &Option<Block>) -> (r: TypedBlock)
        ensures
            final(self).env() == old(self).env(),
            (block_tree(r), final(self).state()) == lower_spec::lower_opt_block(
                old(self).env(),
                *b,
                old(self).state(),
            ),
        decreases b, 0nat,
    {
        match b {
            Some(b) => self.lower_block(b),
            None => unit_block((0, 0)),
        }
    }

    fn lower_as_block(&mut self, e: &Expr) -> (r: TypedBlock)
        ensures
            final(self).env() == old(self).env(),
            (block_tree(r), final(self).state()) == lower_spec::lower_as_block(
                old(self).env(),
                *e,
                old(self).state(),
            ),
        decreases e, 3nat,
    {
        match &e.kind {
            ExprKind::Block(b) => self.lower_block(b),
            _ => {
                let t = self.lower_expr(e);
                value_block(t)
            },
        }
    }

    fn lower_else(&mut self, e: &Option<Box<Expr>>) -> (r: Option<Box<TypedBlock>>)
        ensures
            final(self).env() == old(self).env(),
            (opt_block_trees(r), final(self).state()) == lower_spec::lower_else(
                old(self).env(),
                *e,
                old(self).state(),
            ),
        decreases e, 0nat,
    {
        match e {
            Some(b) => {
                let t = self.lower_as_block(b);
                Some(Box::new(t))
            },
            None => None,
        }
    }

    fn lower_expr(&mut self, e: &Expr) -> (r: TypedExpr)
        ensures
            final(self).env() == old(self).env(),
            (expr_tree(r), final(self).state()) == lower_spec::lower_expr(
                old(self).env(),
                *e,
                old(self).state(),
            ),
        decreases e, 2nat,
    {
        let span = e.range.to_pair();
        match &e.kind {
            ExprKind::Literal(tok) => {
                let ty = self.node_ty(e);
                TypedExpr::Lit { value: literal_of(tok), ty, span }
            },
            ExprKind::Interp(_) => self.lower_interp(e),
            ExprKind::Path(name) => {
                let ty = self.node_ty(e);
                self.lower_path(name, ty, span)
            },
            ExprKind::Bin { .. }
            | ExprKind::Range { .. }
            | ExprKind::Unary { .. }
            | ExprKind::Paren(_) => self.lower_operator(e),
            ExprKind::Block(b) => {
                let block = self.lower_block(b);
                TypedExpr::Block(Box::new(block))
            },
            ExprKind::If { .. }
            | ExprKind::While { .. }
            | ExprKind::Loop { .. }
            | ExprKind::Break(_)
            | ExprKind::Continue
            | ExprKind::Return(_) => self.lower_control(e),
            ExprKind::For { .. } => self.lower_for(e),
            ExprKind::Call { .. } => self.lower_call(e),
            ExprKind::MethodCall { .. } => self.lower_method_call(e),
            ExprKind::Tuple(els) => {
                let elements = self.lower_list(els);
                let ty = self.node_ty(e);
                TypedExpr::Tuple { elements, ty, span }
            },
            ExprKind::List(els) => {
                let elements = self.lower_list(els);
                let ty = self.node_ty(e);
                TypedExpr::ListLit { elements, ty, span }
            },
            ExprKind::Read(_) | ExprKind::Parse { .. } => self.lower_parser_expr(e),
            ExprKind::RecordLit { .. } => self.lower_record_lit(e),
            ExprKind::FieldGet { .. } => {
                let Some((receiver, field_idx)) = self.lower_field_place(e) else {
                    return error_expr();
                };
                let ty = self.node_ty(e);
                TypedExpr::FieldGet { receiver: Box::new(receiver), field_idx, ty, span }
            },
            ExprKind::TupleIndex { .. } => self.lower_tuple_index(e),
            ExprKind::Index { .. } => self.lower_index(e),
            ExprKind::Match { .. } => self.lower_match(e),
            ExprKind::Closure { .. } => self.lower_closure(e),
            ExprKind::Error => {
                let ty = self.node_ty(e);
                TypedExpr::Lit { value: Lit::Int(0), ty, span }
            },
        }
    }

    /// An operator, or parentheses.
    fn lower_operator(&mut self, e: &Expr) -> (r: TypedExpr)
        requires
            e.kind is Bin || e.kind is Range || e.kind is Unary || e.kind is Paren,
        ensures
            final(self).env() == old(self).env(),
            (expr_tree(r), final(self).state()) == lower_spec::lower_expr(
                old(self).env(),
                *e,
                old(self).state(),
            ),
        decreases e, 1nat,
    {
        let span = e.range.to_pair();
        match &e.kind {
            ExprKind::Bin { lhs, op, rhs } => {
                let l = self.lower_opt(lhs);
                let r = self.lower_opt(rhs);
                let ty = self.node_ty(e);
                TypedExpr::Bin {
                    op: bin_op_of(*op),
                    lhs: Box::new(l),
                    rhs: Box::new(r),
                    ty,
                    span,
                }
            },
            ExprKind::Range { start, end, inclusive } => {
                let ty = self.node_ty(e);
                let l = self.lower_bound(start, span);
                let r = self.lower_bound(end, span);
                TypedExpr::Range {
                    start: Box::new(l),
                    end: Box::new(r),
                    inclusive: *inclusive,
                    ty,
                    span,
                }
            },
            ExprKind::Unary { op, operand } => {
                let t = self.lower_opt(operand);
                let ty = self.node_ty(e);
                TypedExpr::Unary { op: unary_op_of(*op), operand: Box::new(t), ty, span }
            },
            ExprKind::Paren(inner) => match inner {
                Some(b) => self.lower_expr(b),
                None => {
                    let ty = self.node_ty(e);
                    let r = TypedExpr::Paren { inner: None, ty, span };
                    proof {
                        lemma_no_expr();
                    }
                    r
                },
            },
            _ => error_expr(),
        }
    }

    /// A branch, a loop, or a jump.
    fn lower_control(&mut self, e: &Expr) -> (r: TypedExpr)
        requires
            e.kind is If || e.kind is While || e.kind is Loop || e.kind is Break || e.kind is Continue
                || e.kind is Return,
        ensures
            final(self).env() == old(self).env(),
            (expr_tree(r), final(self).state()) == lower_spec::lower_expr(
                old(self).env(),
                *e,
                old(self).state(),
            ),
        decreases e, 1nat,
    {
        let span = e.range.to_pair();
        match &e.kind {
            ExprKind::If { cond, then_branch, else_branch } => {
                let c = self.lower_opt(cond);
                let t = self.lower_opt_block(then_branch);
                let f = self.lower_else(else_branch);
                let ty = self.node_ty(e);
                TypedExpr::If {
                    cond: Box::new(c),
                    then_block: Box::new(t),
                    else_block: f,
                    ty,
                    span,
                }
            },
            ExprKind::While { cond, body } => {
                let c = self.lower_opt(cond);
                let b = self.lower_opt_block(body);
                let ty = self.node_ty(e);
                TypedExpr::While { cond: Box::new(c), body: Box::new(b), ty, span }
            },
            ExprKind::Loop { body } => {
                let b = self.lower_opt_block(body);
                let ty = self.node_ty(e);
                TypedExpr::Loop { body: Box::new(b), ty, span }
            },
            ExprKind::Break(value) => {
                let v = self.lower_value(value);
                let ty = self.node_ty(e);
                TypedExpr::Break { value: v, ty, span }
            },
            ExprKind::Continue => {
                let ty = self.node_ty(e);
                TypedExpr::Continue { ty, span }
            },
            ExprKind::Return(value) => {
                let v = self.lower_value(value);
                let ty = self.node_ty(e);
                TypedExpr::Return { value: v, ty, span }
            },
            _ => error_expr(),
        }
    }

    /// A `read` or `parse`: its plan is the parser analysis's, its type inference's.
    fn lower_parser_expr(&mut self, e: &Expr) -> (r: TypedExpr)
        requires
            e.kind is Read || e.kind is Parse,
        ensures
            final(self).env() == old(self).env(),
            (expr_tree(r), final(self).state()) == lower_spec::lower_expr(
                old(self).env(),
                *e,
                old(self).state(),
            ),
        decreases e, 1nat,
    {
        let span = e.range.to_pair();
        match &e.kind {
            ExprKind::Read(parser) => match parser {
                Some(p) => {
                    copy_diags(&p.plan_reports, &mut self.diagnostics);
                    match p.plan {
                        Some(plan) => {
                            let ty = self.node_ty(e);
                            TypedExpr::Read { plan, ty, span }
                        },
                        None => error_expr(),
                    }
                },
                None => error_expr(),
            },
            ExprKind::Parse { text, parser } => {
                let t = self.lower_opt(text);
                match parser {
                    Some(p) => {
                        copy_diags(&p.plan_reports, &mut self.diagnostics);
                        match p.plan {
                            Some(plan) => {
                                let ty = self.node_ty(e);
                                TypedExpr::Parse { text: Box::new(t), plan, ty, span }
                            },
                            None => error_expr(),
                        }
                    },
                    None => error_expr(),
                }
            },
            _ => error_expr(),
        }
    }

    /// A tuple element, by position.
    fn lower_tuple_index(&mut self, e: &Expr) -> (r: TypedExpr)
        requires
            e.kind is TupleIndex,
        ensures
            final(self).env() == old(self).env(),
            (expr_tree(r), final(self).state()) == lower_spec::lower_expr(
                old(self).env(),
                *e,
                old(self).state(),
            ),
        decreases e, 1nat,
    {
        let span = e.range.to_pair();
        match &e.kind {
            ExprKind::TupleIndex { receiver, index } => {
                let Some(b) = receiver else {
                    return error_expr();
                };
                let t = self.lower_expr(b);
                let Some(i) = index else {
                    return error_expr();
                };
                if *i <= u32::MAX as u64 {
                    let ty = self.node_ty(e);
                    TypedExpr::TupleIndex { receiver: Box::new(t), index: *i as u32, ty, span }
                } else {
                    error_expr()
                }
            },
            _ => error_expr(),
        }
    }

    fn lower_path(&self, name: &Option<Ident>, ty: Type, span: (u32, u32)) -> (r: TypedExpr)
        ensures
            expr_tree(r) == lower_spec::lower_path(self.env(), *name, ty, span),
    {
        let symbol: Option<SymbolId> = match name {
            Some(n) => self.symbol_at(n.range),
            None => None,
        };
        let id = match symbol {
            Some(s) => s,
            None => SymbolId::unresolved(),
        };
        let variant = self.enum_variant_of(id);
        if symbol.is_some() {
            if let Some((def, i)) = variant {
                if !self.variant_has_payload(def, i) {
                    let args: Vec<TypedExpr> = Vec::new();
                    assert(expr_trees(args@) =~= Seq::empty());
                    return TypedExpr::EnumVariant {
                        enum_def_id: def,
                        variant_idx: i as u32,
                        args,
                        ty,
                        span,
                    };
                }
            }
        }
        if let Some(s) = self.names.get(id) {
            if s.kind == SymbolKind::Fn {
                return TypedExpr::FnValue {
                    callee: id,
                    callee_name: s.name.clone(),
                    ty,
                    span,
                };
            }
        }
        TypedExpr::Path { symbol: id, ty, span }
    }

    fn lower_interp(&mut self, e: &Expr) -> (r: TypedExpr)
        ensures
            final(self).env() == old(self).env(),
            (expr_tree(r), final(self).state()) == lower_spec::lower_interp(
                old(self).env(),
                *e,
                old(self).state(),
            ),
        decreases e, 0nat,
    {
        let ExprKind::Interp(parts) = &e.kind else {
            return error_expr();
        };
        let ty = self.node_ty(e);
        let ghost env = self.env();
        let ghost st = self.state();
        let mut out: Vec<InterpHole> = Vec::new();
        let mut pending = String::new();
        let mut i: usize = 0;
        assert(parts@.take(0) =~= Seq::empty());
        assert(texts_before(out@) =~= Seq::empty());
        assert(hole_trees(out@) =~= Seq::empty());
        assert(pending@ =~= Seq::empty());
        while i < parts.len()
            invariant
                i <= parts@.len(),
                self.env() == env,
                (texts_before(out@), hole_trees(out@), pending@, self.state())
                    == lower_spec::lower_parts(env, parts@.take(i as int), st),
                e.kind matches ExprKind::Interp(p) && p == *parts,
            decreases parts@.len() - i,
        {
            assert(parts@.take(i + 1).drop_last() =~= parts@.take(i as int));
            match &parts[i] {
                InterpPart::Fragment(s) => pending.append(s),
                InterpPart::Hole(h) => {
                    let hole = self.lower_expr(h);
                    let ghost before = out@;
                    let ghost word = pending@;
                    out.push(InterpHole { before: pending, hole });
                    pending = String::new();
                    assert(pending@ =~= Seq::empty());
                    assert(out@.drop_last() =~= before);
                    assert(texts_before(out@) =~= texts_before(before).push(word));
                },
            }
            i += 1;
        }
        assert(parts@.take(i as int) =~= parts@);
        TypedExpr::Interp { parts: out, trailing: pending, ty, span: e.range.to_pair() }
    }

    fn lower_for(&mut self, e: &Expr) -> (r: TypedExpr)
        ensures
            final(self).env() == old(self).env(),
            (expr_tree(r), final(self).state()) == lower_spec::lower_for(
                old(self).env(),
                *e,
                old(self).state(),
            ),
        decreases e, 0nat,
    {
        let ExprKind::For { binding, iter, body } = &e.kind else {
            return error_expr();
        };
        let i = self.lower_opt(iter);
        let b = self.lower_opt_block(body);
        let item_ty = match binding {
            Some(p) => match self.ref_types.get(p.range) {
                Some(t) => self.db.deep_resolve(t),
                None => Type::Unit,
            },
            None => Type::Unit,
        };
        let pattern = match binding {
            Some(p) => self.build_pattern(p, &item_ty),
            None => TypedPattern::Wildcard,
        };
        let ty = self.node_ty(e);
        TypedExpr::For {
            binding: pattern,
            iter: Box::new(i),
            body: Box::new(b),
            item_ty,
            ty,
            span: e.range.to_pair(),
        }
    }

    fn lower_call(&mut self, e: &Expr) -> (r: TypedExpr)
        ensures
            final(self).env() == old(self).env(),
            (expr_tree(r), final(self).state()) == lower_spec::lower_call(
                old(self).env(),
                *e,
                old(self).state(),
            ),
        decreases e, 0nat,
    {
        let ExprKind::Call { callee, callee_expr, args, .. } = &e.kind else {
            return error_expr();
        };
        let span = e.range.to_pair();
        let target: Option<Box<TypedExpr>> = if callee.is_none() {
            self.lower_value(callee_expr)
        } else {
            None
        };
        proof {
            lemma_no_expr();
        }
        let symbol = match callee {
            Some(n) => match self.symbol_at(n.range) {
                Some(s) => s,
                None => SymbolId::unresolved(),
            },
            None => SymbolId::unresolved(),
        };
        let name = match callee {
            Some(n) => n.text.clone(),
            None => {
                let n = String::new();
                assert(n@ =~= Seq::empty());
                n
            },
        };
        let ts = self.lower_list(args);
        let ty = self.node_ty(e);
        if let Some((def, i)) = self.enum_variant_of(symbol) {
            return TypedExpr::EnumVariant {
                enum_def_id: def,
                variant_idx: i as u32,
                args: ts,
                ty,
                span,
            };
        }
        let arg_types = self.call_types(callee);
        TypedExpr::Call {
            callee: symbol,
            callee_name: name,
            args: ts,
            arg_types,
            callee_expr: target,
            ty,
            span,
        }
    }

    fn call_types(&self, callee: &Option<Ident>) -> (r: Vec<Type>)
        ensures
            r@ == lower_spec::call_types(self.env(), *callee),
    {
        let mut out: Vec<Type> = Vec::new();
        if let Some(n) = callee {
            if let Some(site) = self.call_sites.get(n.range) {
                let types = site.arg_types.to_vec();
                let mut i: usize = 0;
                while i < types.len()
                    invariant
                        i <= types@.len(),
                        out@.len() == i,
                        forall|j: int| 0 <= j < i ==> out@[j] == self.env().db.resolve(types@[j]),
                    decreases types@.len() - i,
                {
                    out.push(self.db.deep_resolve(&types[i]));
                    i += 1;
                }
                assert(out@ =~= lower_spec::resolve_all(self.env(), types@));
                return out;
            }
        }
        assert(out@ =~= Seq::empty());
        out
    }

    fn method_expr(
        &mut self,
        e: &Expr,
        name: String,
        row: Option<&'a MethodRef>,
        receiver: TypedExpr,
        args: Vec<TypedExpr>,
    ) -> (r: TypedExpr)
        ensures
            final(self).env() == old(self).env(),
            (expr_tree(r), final(self).state()) == lower_spec::method_tree(
                old(self).env(),
                *e,
                name@,
                match row {
                    Some(m) => Some(*m),
                    None => None,
                },
                seq![expr_tree(receiver)] + expr_trees(args@),
                old(self).state(),
            ),
    {
        let span = e.range.to_pair();
        match row {
            Some(m) => {
                let ty = self.db.deep_resolve(&m.result);
                TypedExpr::MethodCall {
                    receiver: Box::new(receiver),
                    name,
                    lowering_symbol: routine_of(m.entry.lowering),
                    receiver_is_iterable: m.entry.receiver_is_iterable,
                    args,
                    purity: m.entry.purity,
                    ty,
                    span,
                }
            },
            None => {
                let ty = self.node_ty(e);
                TypedExpr::MethodCall {
                    receiver: Box::new(receiver),
                    name,
                    lowering_symbol: None,
                    receiver_is_iterable: false,
                    args,
                    purity: Purity::Impure,
                    ty,
                    span,
                }
            },
        }
    }

    fn lower_method_call(&mut self, e: &Expr) -> (r: TypedExpr)
        ensures
            final(self).env() == old(self).env(),
            (expr_tree(r), final(self).state()) == lower_spec::lower_method_call(
                old(self).env(),
                *e,
                old(self).state(),
            ),
        decreases e, 0nat,
    {
        let ExprKind::MethodCall { receiver, name, args } = &e.kind else {
            return error_expr();
        };
        let r = self.lower_bound(receiver, e.range.to_pair());
        let ts = self.lower_list(args);
        let word = match name {
            Some(n) => n.text.clone(),
            None => {
                let n = String::new();
                assert(n@ =~= Seq::empty());
                n
            },
        };
        let row = match name {
            Some(n) => self.method_refs.get(n.range),
            None => None,
        };
        self.method_expr(e, word, row, r, ts)
    }

    fn lower_index(&mut self, e: &Expr) -> (r: TypedExpr)
        ensures
            final(self).env() == old(self).env(),
            (expr_tree(r), final(self).state()) == lower_spec::lower_index(
                old(self).env(),
                *e,
                old(self).state(),
            ),
        decreases e, 0nat,
    {
        let ExprKind::Index { receiver, indices } = &e.kind else {
            return error_expr();
        };
        let Some(b) = receiver else {
            return error_expr();
        };
        let r = self.lower_expr(b);
        let ts = self.lower_list(indices);
        let row = self.method_refs.get(e.range);
        self.method_expr(e, text("[]"), row, r, ts)
    }

    fn lower_record_lit(&mut self, e: &Expr) -> (r: TypedExpr)
        ensures
            final(self).env() == old(self).env(),
            (expr_tree(r), final(self).state()) == lower_spec::lower_record_lit(
                old(self).env(),
                *e,
                old(self).state(),
            ),
        decreases e, 0nat,
    {
        let ExprKind::RecordLit { fields, .. } = &e.kind else {
            return error_expr();
        };
        let ty = self.node_ty(e);
        let def = match &ty {
            Type::Record(def, _) => *def,
            _ => {
                return error_expr();
            },
        };
        let ghost env = self.env();
        let ghost st = self.state();
        let mut out: Vec<TypedField> = Vec::new();
        let mut i: usize = 0;
        assert(fields@.take(0) =~= Seq::empty());
        assert(field_pairs(out@) =~= Seq::empty());
        while i < fields.len()
            invariant
                i <= fields@.len(),
                self.env() == env,
                ty matches Type::Record(d, _) && d == def,
                (field_pairs(out@), self.state()) == lower_spec::lower_fields(
                    env,
                    fields@.take(i as int),
                    ty,
                    st,
                ),
                e.kind matches ExprKind::RecordLit { fields: f, .. } && f == *fields,
            decreases fields@.len() - i,
        {
            assert(fields@.take(i + 1).drop_last() =~= fields@.take(i as int));
            assert(fields@.take(i + 1).last() == fields@[i as int]);
            let field = &fields[i];
            i += 1;
            let Some(name) = &field.name else {
                continue;
            };
            let Some(idx) = self.db.field_index(def, &name.text) else {
                continue;
            };
            let init = match &field.expr {
                Some(x) => self.lower_expr(x),
                None => match self.symbol_at(name.range) {
                    Some(symbol) => TypedExpr::Path {
                        symbol,
                        ty: self.symbol_type(symbol),
                        span: name.range.to_pair(),
                    },
                    None => error_expr(),
                },
            };
            place_field(&mut out, idx as u32, init);
        }
        assert(fields@.take(i as int) =~= fields@);
        proof {
            lemma_field_pairs(out@);
        }
        TypedExpr::RecordLit { record_def_id: def, fields: out, ty, span: e.range.to_pair() }
    }

    fn lower_field_place(&mut self, e: &Expr) -> (r: Option<(TypedExpr, u32)>)
        ensures
            final(self).env() == old(self).env(),
            (
                match r {
                    Some((t, i)) => Some((expr_tree(t), i)),
                    None => None,
                },
                final(self).state(),
            ) == lower_spec::lower_field_place(old(self).env(), *e, old(self).state()),
        decreases e, 0nat,
    {
        let ExprKind::FieldGet { receiver, name } = &e.kind else {
            return None;
        };
        let Some(b) = receiver else {
            return None;
        };
        let r = self.lower_expr(b);
        let ty = self.db.deep_resolve(&expr_ty(&r));
        if let (Type::Record(def, _), Some(n)) = (&ty, name) {
            if let Some(i) = self.db.field_index(*def, &n.text) {
                return Some((r, i as u32));
            }
        }
        if let Type::Var(_) = &ty {
            return None;
        }
        if let Some(n) = name {
            let at = self.file_span(n.range);
            push_diag(
                &mut self.diagnostics,
                Diagnostic::error(
                    at,
                    DiagCode::NoFieldOnType,
                    text3("no field `", &n.text, "` on this type"),
                ),
            );
        }
        None
    }

    fn lower_match(&mut self, e: &Expr) -> (r: TypedExpr)
        ensures
            final(self).env() == old(self).env(),
            (expr_tree(r), final(self).state()) == lower_spec::lower_match(
                old(self).env(),
                *e,
                old(self).state(),
            ),
        decreases e, 0nat,
    {
        let ExprKind::Match { scrutinee, arms } = &e.kind else {
            return error_expr();
        };
        let Some(b) = scrutinee else {
            return error_expr();
        };
        let s = self.lower_expr(b);
        let scrutinee_ty = expr_ty(&s);
        let ghost env = self.env();
        let ghost st = self.state();
        let mut out: Vec<TypedMatchArm> = Vec::new();
        let mut i: usize = 0;
        assert(arms@.take(0) =~= Seq::empty());
        assert(arm_patterns(out@) =~= Seq::empty());
        assert(arm_trees(out@) =~= Seq::empty());
        while i < arms.len()
            invariant
                i <= arms@.len(),
                self.env() == env,
                (arm_patterns(out@), arm_trees(out@), self.state()) == lower_spec::lower_arms(
                    env,
                    arms@.take(i as int),
                    scrutinee_ty,
                    st,
                ),
                e.kind matches ExprKind::Match { arms: a, .. } && a == *arms,
            decreases arms@.len() - i,
        {
            assert(arms@.take(i + 1).drop_last() =~= arms@.take(i as int));
            assert(arms@.take(i + 1).last() == arms@[i as int]);
            let arm = &arms[i];
            let pattern = match &arm.pattern {
                Some(p) => self.build_pattern(p, &scrutinee_ty),
                None => TypedPattern::Wildcard,
            };
            let body = self.lower_opt(&arm.body);
            let ghost before = out@;
            out.push(TypedMatchArm { pattern, body });
            assert(out@.drop_last() =~= before);
            assert(arm_patterns(out@) =~= arm_patterns(before).push(pattern_view(pattern)));
            i += 1;
        }
        assert(arms@.take(i as int) =~= arms@);
        let ty = self.node_ty(e);
        TypedExpr::Match { scrutinee: Box::new(s), arms: out, ty, span: e.range.to_pair() }
    }

    fn lower_closure_body(&mut self, body: &Option<Box<Expr>>, span: (u32, u32)) -> (r: TypedBlock)
        ensures
            final(self).env() == old(self).env(),
            (block_tree(r), final(self).state()) == lower_spec::lower_closure_body(
                old(self).env(),
                *body,
                span,
                old(self).state(),
            ),
        decreases body, 0nat,
    {
        match body {
            Some(b) => self.lower_as_block(b),
            None => unit_block(span),
        }
    }

    fn lower_closure(&mut self, e: &Expr) -> (r: TypedExpr)
        ensures
            final(self).env() == old(self).env(),
            (expr_tree(r), final(self).state()) == lower_spec::lower_closure(
                old(self).env(),
                *e,
                old(self).state(),
            ),
        decreases e, 0nat,
    {
        let ExprKind::Closure { params, body } = &e.kind else {
            return error_expr();
        };
        let span = e.range.to_pair();
        let slots = self.lower_params(params);
        let inner = self.lower_closure_body(body, span);
        let inner = self.destructure_pattern_params(params, inner, span);
        let fn_type = self.node_ty(e);
        let captures = match body {
            Some(b) => {
                let free = analyze(b, e.range, self.refs, self.names);
                self.lower_captures(&free)
            },
            None => {
                let none: Vec<Capture> = Vec::new();
                assert(capture_views(none@) =~= Seq::empty());
                none
            },
        };
        self.note_escaping(&captures);
        let fn_name = self.fresh_closure_name();
        let ty = fn_type.dup();
        TypedExpr::Closure {
            params: slots,
            body: Box::new(inner),
            captures,
            fn_type,
            fn_name,
            ty,
            span,
        }
    }

    /// Wraps `body` in one `match` per parameter that takes its argument apart.
    fn destructure_pattern_params(
        &mut self,
        params: &Vec<Param>,
        body: TypedBlock,
        span: (u32, u32),
    ) -> (r: TypedBlock)
        ensures
            final(self).env() == old(self).env(),
            (block_tree(r), final(self).state()) == lower_spec::destructured(
                old(self).env(),
                params@,
                block_tree(body),
                span,
                old(self).state(),
            ),
    {
        let ghost env = self.env();
        let ghost goal = lower_spec::destructured(
            env,
            params@,
            block_tree(body),
            span,
            self.state(),
        );
        let mut block = body;
        let mut i: usize = params.len();
        assert(params@.take(i as int) =~= params@);
        while i > 0
            invariant
                i <= params@.len(),
                self.env() == env,
                goal == lower_spec::destructured(
                    env,
                    params@.take(i as int),
                    block_tree(block),
                    span,
                    self.state(),
                ),
            decreases i,
        {
            i -= 1;
            assert(params@.take(i + 1).drop_last() =~= params@.take(i as int));
            assert(params@.take(i + 1).last() == params@[i as int]);
            let p = &params[i];
            if p.name.is_some() {
                continue;
            }
            let Some(pat) = &p.pattern else {
                continue;
            };
            if let PatternKind::Wildcard = &pat.kind {
                continue;
            }
            let Some(symbol) = self.decl_at(pat.range) else {
                continue;
            };
            let param_ty = self.symbol_type(symbol);
            let pattern = self.build_pattern(pat, &param_ty);
            let ty = block.ty.dup();
            let ghost old_tree = block_tree(block);
            assert(old_tree.ty == block.ty);
            let ghost slot = leaf(Node::Path(symbol), param_ty, span);
            let scrutinee = TypedExpr::Path { symbol, ty: param_ty, span };
            assert(expr_tree(scrutinee) == slot);
            let ghost arm_view = pattern_view(pattern);
            let arm = TypedMatchArm { pattern, body: TypedExpr::Block(Box::new(block)) };
            assert(expr_tree(arm.body) == old_tree);
            let mut arms: Vec<TypedMatchArm> = Vec::new();
            arms.push(arm);
            assert(arm_patterns(arms@) =~= seq![arm_view]);
            assert(arms@.drop_last() =~= Seq::empty());
            assert(arm_trees(Seq::empty()) =~= Seq::empty());
            assert(arm_trees(arms@) =~= seq![old_tree]);
            let tail = TypedExpr::Match { scrutinee: Box::new(scrutinee), arms, ty, span };
            assert(expr_tree(tail).kids =~= seq![slot] + seq![old_tree]);
            block = value_block(tail);
        }
        assert(params@.take(0) =~= Seq::empty());
        block
    }

    // --- items -------------------------------------------------------------

    fn lower_fn(&mut self, item: &FnItem) -> (r: Option<TypedFn>)
        ensures
            final(self).env() == old(self).env(),
            (
                match r {
                    Some(f) => Some(f@),
                    None => None,
                },
                final(self).state(),
            ) == lower_spec::lower_fn(old(self).env(), *item, old(self).state()),
    {
        let Some(n) = &item.name else {
            return None;
        };
        let Some(symbol) = self.decl_at(n.range) else {
            return None;
        };
        let Some(sym) = self.names.get(symbol) else {
            return None;
        };
        let Some(scheme) = &sym.scheme else {
            return None;
        };
        let fn_type = self.db.deep_resolve(&scheme.body);
        let params = self.lower_params(&item.params);
        let return_type = match &fn_type {
            Type::Func(_, r) => r.dup(),
            _ => Type::Unit,
        };
        let body = match &item.body {
            Some(b) => self.lower_block(b),
            None => unit_block(item.range.to_pair()),
        };
        Some(
            TypedFn {
                symbol,
                name: n.text.clone(),
                params,
                return_type,
                body,
                fn_type,
                span: item.range.to_pair(),
            },
        )
    }
}

/// The tree an optional expression holds.
pub open spec fn opt_tree(e: Option<TypedExpr>) -> Option<Tree> {
    match e {
        Some(t) => Some(expr_tree(t)),
        None => None,
    }
}

/// The tree of a statement.
#[verifier::opaque]
pub open spec fn stmt_view(s: TypedStmt) -> Tree {
    stmt_tree(s)
}

/// The tree an optional statement holds.
pub open spec fn opt_stmt(s: Option<TypedStmt>) -> Option<Tree> {
    match s {
        Some(t) => Some(stmt_view(t)),
        None => None,
    }
}

proof fn lemma_no_expr()
    ensures
        opt_expr_trees(None) == Seq::<Tree>::empty(),
{
}

fn contains_symbol(v: &Vec<SymbolId>, s: SymbolId) -> (r: bool)
    ensures
        r == v@.contains(s),
{
    let mut i: usize = 0;
    while i < v.len()
        invariant
            i <= v@.len(),
            forall|j: int| 0 <= j < i ==> v@[j] != s,
        decreases v@.len() - i,
    {
        if v[i] == s {
            return true;
        }
        i += 1;
    }
    false
}

fn has_top_level_stmts(items: &Vec<TopLevel>) -> (r: bool)
    ensures
        r == lower_spec::has_stmts(items@),
{
    let mut i: usize = 0;
    while i < items.len()
        invariant
            i <= items@.len(),
            forall|j: int| 0 <= j < i ==> !((#[trigger] items@[j]) is Stmt),
        decreases items@.len() - i,
    {
        if let TopLevel::Stmt(_) = &items[i] {
            return true;
        }
        i += 1;
    }
    false
}

fn reassigned_symbols(names: &NameTable) -> (r: Vec<SymbolId>)
    ensures
        r@ == lower_spec::reassigned(names@),
{
    let all = names.all();
    let ghost views = names@;
    let mut out: Vec<SymbolId> = Vec::new();
    let mut i: usize = 0;
    assert(views.take(0) =~= Seq::empty());
    while i < all.len()
        invariant
            i <= all@.len(),
            all@.map_values(|s: Symbol| s@) == views,
            out@ == lower_spec::reassigned(views.take(i as int)),
        decreases all@.len() - i,
    {
        assert(views.take(i + 1).drop_last() =~= views.take(i as int));
        assert(views[i as int] == all@[i as int]@);
        let s = &all[i];
        if s.reassigned {
            out.push(s.id);
        }
        i += 1;
    }
    assert(views.take(i as int) =~= views);
    out
}

/// What an analyzed file tells lowering, with `names` for its symbols.
pub open spec fn env_of(file: FileId, a: Analysis, names: Seq<SymbolView>) -> LowerEnv {
    LowerEnv {
        file,
        db: a.db@,
        names,
        refs: a.refs@,
        decls: a.decls@,
        ref_types: a.ref_types@,
        call_sites: a.call_sites@,
        expr_types: a.expr_types@,
        method_refs: a.method_refs@,
    }
}

/// The contents of a lowered file.
pub open spec fn module_view(m: TypedModule) -> lower_spec::ModuleView {
    lower_spec::ModuleView {
        items: item_views(m.items@),
        diags: diag_views(m.diagnostics@),
        escaping: m.escaping_vars@,
        reassigned: m.reassigned_vars@,
    }
}

/// Lowers an analyzed file into a typed tree.
///
/// Nothing of the analysis changes. The function that runs a file's top-level
/// statements has an id that the symbol table has not handed out.
pub fn lower(file: FileId, root: &SourceFile, analysis: &mut Analysis) -> (r: TypedModule)
    ensures
        *final(analysis) == *old(analysis),
        module_view(r) == lower_spec::lower_module(
            env_of(file, *old(analysis), old(analysis).names@),
            root.items@,
            root.range,
        ),
{
    let runs = has_top_level_stmts(&root.items);
    let entry = SymbolId(analysis.names.len() as u32);
    let mut l = Lowerer {
        file,
        db: &analysis.db,
        names: &analysis.names,
        refs: &analysis.refs,
        decls: &analysis.decls,
        ref_types: &analysis.ref_types,
        call_sites: &analysis.call_sites,
        expr_types: &analysis.expr_types,
        method_refs: &analysis.method_refs,
        diagnostics: Vec::new(),
        closures: 0,
        escaping: Vec::new(),
    };
    let ghost env = l.env();
    assert(l.state().diags =~= Seq::empty());
    assert(l.state().escaping =~= Seq::empty());
    let mut items: Vec<TypedItem> = Vec::new();
    let mut stmts: Vec<TypedStmt> = Vec::new();
    let mut i: usize = 0;
    assert(root.items@.take(0) =~= Seq::empty());
    assert(item_views(items@) =~= Seq::empty());
    assert(stmt_trees(stmts@) =~= Seq::empty());
    while i < root.items.len()
        invariant
            i <= root.items@.len(),
            l.env() == env,
            (item_views(items@), stmt_trees(stmts@), l.state()) == lower_spec::lower_items(
                env,
                root.items@.take(i as int),
                lower_spec::nothing_yet(),
            ),
        decreases root.items@.len() - i,
    {
        assert(root.items@.take(i + 1).drop_last() =~= root.items@.take(i as int));
        assert(root.items@.take(i + 1).last() == root.items@[i as int]);
        match &root.items[i] {
            TopLevel::Fn(f) => {
                if let Some(lowered) = l.lower_fn(f) {
                    push_fn(&mut items, lowered);
                }
            },
            TopLevel::Stmt(s) => {
                if let Some(lowered) = l.lower_stmt(s) {
                    push_stmt(&mut stmts, lowered);
                }
            },
            _ => {},
        }
        i += 1;
    }
    assert(root.items@.take(i as int) =~= root.items@);
    let reassigned_vars = reassigned_symbols(l.names);
    let diagnostics = l.diagnostics;
    let escaping_vars = l.escaping;
    if runs {
        push_fn(&mut items, entry_function(entry, stmts, root.range));
    }
    TypedModule { items, diagnostics, escaping_vars, reassigned_vars }
}

fn push_fn(items: &mut Vec<TypedItem>, f: TypedFn)
    ensures
        item_views(final(items)@) == item_views(old(items)@).push(f@),
{
    items.push(TypedItem::Fn(f));
    assert(item_views(items@) =~= item_views(old(items)@).push(f@));
}

fn entry_function(symbol: SymbolId, stmts: Vec<TypedStmt>, range: Span) -> (r: TypedFn)
    ensures
        r@ == lower_spec::entry_fn(symbol, stmt_trees(stmts@), range.pair()),
{
    let params: Vec<TypedParam> = Vec::new();
    assert(param_views(params@) =~= Seq::empty());
    TypedFn {
        symbol,
        name: text(ENTRY_NAME),
        params,
        return_type: Type::Unit,
        body: block_from(stmts, error_expr()),
        fn_type: Type::Func(TypeList::Nil, Box::new(Type::Unit)),
        span: range.to_pair(),
    }
}

} // verus!
