//! The typed tree: the program with a type on every node.
use vstd::prelude::*;

use crate::ast::PlanId;
use crate::source::Diagnostic;
use crate::symbol::SymbolId;
use crate::types::{EnumDefId, RecordDefId, Type};

verus! {

/// A routine of the runtime.
#[derive(Clone, Copy, Debug, PartialEq, Eq, Structural)]
pub struct RuntimeSymbol(pub u32);

/// Whether calling a method can change anything.
#[derive(Clone, Copy, Debug, PartialEq, Eq, Structural)]
pub enum Purity {
    Pure,
    Impure,
}

/// A whole lowered file.
#[derive(Clone, Debug)]
pub struct TypedModule {
    /// The functions in source order, then the entry point when the file has
    /// top-level statements.
    pub items: Vec<TypedItem>,
    /// What lowering itself reports.
    pub diagnostics: Vec<Diagnostic>,
    /// The reassigned symbols some closure captures, in the order the captures
    /// were found.
    pub escaping_vars: Vec<SymbolId>,
    /// Every symbol some assignment writes, in table order.
    pub reassigned_vars: Vec<SymbolId>,
}

/// A top-level item.
#[derive(Clone, Debug)]
pub enum TypedItem {
    Fn(TypedFn),
}

/// A lowered function.
#[derive(Debug)]
pub struct TypedFn {
    pub symbol: SymbolId,
    pub name: String,
    pub params: Vec<TypedParam>,
    pub return_type: Type,
    pub body: TypedBlock,
    pub fn_type: Type,
    pub span: (u32, u32),
}

/// A parameter. One that takes its argument apart has no name.
#[derive(Clone, Debug)]
pub struct TypedParam {
    pub symbol: SymbolId,
    pub name: Option<String>,
    pub ty: Type,
}

/// A block; `tail` is its value.
#[derive(Clone, Debug)]
pub struct TypedBlock {
    pub stmts: Vec<TypedStmt>,
    pub tail: TypedExpr,
    pub ty: Type,
}

/// A statement.
#[derive(Debug)]
pub enum TypedStmt {
    Var { symbol: SymbolId, name: String, ty: Type, init: TypedExpr, span: (u32, u32) },
    Assign { symbol: SymbolId, name: String, op: AssignOp, value: TypedExpr, span: (u32, u32) },
    /// A store through a subscript. The place is carried once, so a compound
    /// operator evaluates it once; `get` is the read it needs first.
    IndexAssign {
        receiver: TypedExpr,
        indices: Vec<TypedExpr>,
        get: Option<RuntimeSymbol>,
        set: RuntimeSymbol,
        op: AssignOp,
        value: TypedExpr,
        span: (u32, u32),
    },
    /// A store into a record field.
    FieldAssign {
        receiver: TypedExpr,
        field_idx: u32,
        op: AssignOp,
        value: TypedExpr,
        span: (u32, u32),
    },
    Expr(TypedExpr),
}

/// The assignment operators.
#[derive(Clone, Copy, Debug, PartialEq, Eq, Structural)]
pub enum AssignOp {
    Assign,
    AddAssign,
    SubAssign,
    MulAssign,
    DivAssign,
    RemAssign,
}

/// Binary operators.
#[derive(Clone, Copy, Debug, PartialEq, Eq, Structural)]
pub enum BinOp {
    Add,
    Sub,
    Mul,
    Div,
    Rem,
    Eq,
    Neq,
    Lt,
    Gt,
    Le,
    Ge,
    LogicalOr,
    LogicalAnd,
}

/// Unary operators.
#[derive(Clone, Copy, Debug, PartialEq, Eq, Structural)]
pub enum UnaryOp {
    Neg,
    Not,
}

/// A literal value.
#[derive(Clone, Debug)]
pub enum Lit {
    Int(i64),
    /// The bits of an IEEE-754 binary64 value.
    Float(u64),
    Text(String),
    Bool(bool),
    /// A Unicode scalar value.
    Char(u32),
    /// The value of the `Unit` type, which no source text writes.
    Unit,
}

/// How a closure holds a name from around it.
#[derive(Clone, Copy, Debug, PartialEq, Eq, Structural)]
pub enum CaptureKind {
    /// A copy of the value.
    ByValue,
    /// A cell shared with the frame that declares it.
    ByCell,
}

/// One name a closure takes from around it.
#[derive(Clone, Debug)]
pub struct Capture {
    pub symbol: SymbolId,
    pub name: String,
    pub ty: Type,
    pub kind: CaptureKind,
}

/// The text before a hole, and the hole.
#[derive(Clone, Debug)]
pub struct InterpHole {
    pub before: String,
    pub hole: TypedExpr,
}

/// A field initializer and the field's index.
#[derive(Clone, Debug)]
pub struct TypedField {
    pub index: u32,
    pub init: TypedExpr,
}

/// A typed expression.
#[derive(Debug)]
#[allow(inconsistent_fields)]
pub enum TypedExpr {
    Lit { value: Lit, ty: Type, span: (u32, u32) },
    /// An interpolated text literal: the text before each hole, and the text
    /// after the last.
    Interp { parts: Vec<InterpHole>, trailing: String, ty: Type, span: (u32, u32) },
    Path { symbol: SymbolId, ty: Type, span: (u32, u32) },
    /// A function's name in value position.
    FnValue { callee: SymbolId, callee_name: String, ty: Type, span: (u32, u32) },
    Bin { op: BinOp, lhs: Box<TypedExpr>, rhs: Box<TypedExpr>, ty: Type, span: (u32, u32) },
    Range {
        start: Box<TypedExpr>,
        end: Box<TypedExpr>,
        inclusive: bool,
        ty: Type,
        span: (u32, u32),
    },
    Unary { op: UnaryOp, operand: Box<TypedExpr>, ty: Type, span: (u32, u32) },
    /// Only for parentheses around nothing: others lower to what they hold.
    Paren { inner: Option<Box<TypedExpr>>, ty: Type, span: (u32, u32) },
    Block(Box<TypedBlock>),
    If {
        cond: Box<TypedExpr>,
        then_block: Box<TypedBlock>,
        else_block: Option<Box<TypedBlock>>,
        ty: Type,
        span: (u32, u32),
    },
    While { cond: Box<TypedExpr>, body: Box<TypedBlock>, ty: Type, span: (u32, u32) },
    For {
        binding: TypedPattern,
        iter: Box<TypedExpr>,
        body: Box<TypedBlock>,
        item_ty: Type,
        ty: Type,
        span: (u32, u32),
    },
    Loop { body: Box<TypedBlock>, ty: Type, span: (u32, u32) },
    Break { value: Option<Box<TypedExpr>>, ty: Type, span: (u32, u32) },
    Continue { ty: Type, span: (u32, u32) },
    Return { value: Option<Box<TypedExpr>>, ty: Type, span: (u32, u32) },
    /// A call of a declared name, or of `callee_expr` where there is one.
    Call {
        callee: SymbolId,
        callee_name: String,
        args: Vec<TypedExpr>,
        arg_types: Vec<Type>,
        callee_expr: Option<Box<TypedExpr>>,
        ty: Type,
        span: (u32, u32),
    },
    MethodCall {
        receiver: Box<TypedExpr>,
        name: String,
        lowering_symbol: Option<RuntimeSymbol>,
        receiver_is_iterable: bool,
        args: Vec<TypedExpr>,
        purity: Purity,
        ty: Type,
        span: (u32, u32),
    },
    Tuple { elements: Vec<TypedExpr>, ty: Type, span: (u32, u32) },
    ListLit { elements: Vec<TypedExpr>, ty: Type, span: (u32, u32) },
    Read { plan: PlanId, ty: Type, span: (u32, u32) },
    Parse { text: Box<TypedExpr>, plan: PlanId, ty: Type, span: (u32, u32) },
    /// The initializers are in declaration order.
    RecordLit { record_def_id: RecordDefId, fields: Vec<TypedField>, ty: Type, span: (u32, u32) },
    TupleIndex { receiver: Box<TypedExpr>, index: u32, ty: Type, span: (u32, u32) },
    FieldGet { receiver: Box<TypedExpr>, field_idx: u32, ty: Type, span: (u32, u32) },
    EnumVariant {
        enum_def_id: EnumDefId,
        variant_idx: u32,
        args: Vec<TypedExpr>,
        ty: Type,
        span: (u32, u32),
    },
    Match { scrutinee: Box<TypedExpr>, arms: Vec<TypedMatchArm>, ty: Type, span: (u32, u32) },
    Closure {
        params: Vec<TypedParam>,
        body: Box<TypedBlock>,
        captures: Vec<Capture>,
        fn_type: Type,
        fn_name: String,
        ty: Type,
        span: (u32, u32),
    },
}

/// One arm of a `match`.
#[derive(Clone, Debug)]
pub struct TypedMatchArm {
    pub pattern: TypedPattern,
    pub body: TypedExpr,
}

/// A pattern. The sub-patterns of a composite are positional: one per payload
/// slot, element or declared field.
#[derive(Debug)]
pub enum TypedPattern {
    Wildcard,
    Lit { value: Lit, ty: Type },
    Bind { symbol: SymbolId, name: String, ty: Type, span: (u32, u32) },
    EnumVariant {
        enum_def_id: EnumDefId,
        variant_idx: u32,
        subpatterns: Vec<TypedPattern>,
        ty: Type,
    },
    Tuple { subpatterns: Vec<TypedPattern>, ty: Type },
    Record { record_def_id: RecordDefId, subpatterns: Vec<TypedPattern>, ty: Type },
}

// ---------------------------------------------------------------------------
// What a tree holds
// ---------------------------------------------------------------------------

pub ghost enum LitView {
    Int(i64),
    Float(u64),
    Text(Seq<char>),
    Bool(bool),
    Char(u32),
    Unit,
}

impl View for Lit {
    type V = LitView;

    open spec fn view(&self) -> LitView {
        match *self {
            Lit::Int(n) => LitView::Int(n),
            Lit::Float(b) => LitView::Float(b),
            Lit::Text(s) => LitView::Text(s@),
            Lit::Bool(b) => LitView::Bool(b),
            Lit::Char(c) => LitView::Char(c),
            Lit::Unit => LitView::Unit,
        }
    }
}

pub ghost enum PatternView {
    Wildcard,
    Lit(LitView, Type),
    Bind(SymbolId, Seq<char>, Type, (u32, u32)),
    EnumVariant(EnumDefId, u32, Seq<PatternView>, Type),
    Tuple(Seq<PatternView>, Type),
    Record(RecordDefId, Seq<PatternView>, Type),
}

pub open spec fn pattern_view(p: TypedPattern) -> PatternView
    decreases p,
{
    match p {
        TypedPattern::Wildcard => PatternView::Wildcard,
        TypedPattern::Lit { value, ty } => PatternView::Lit(value@, ty),
        TypedPattern::Bind { symbol, name, ty, span } => PatternView::Bind(symbol, name@, ty, span),
        TypedPattern::EnumVariant { enum_def_id, variant_idx, subpatterns, ty } => {
            PatternView::EnumVariant(enum_def_id, variant_idx, pattern_views(subpatterns@), ty)
        },
        TypedPattern::Tuple { subpatterns, ty } => PatternView::Tuple(
            pattern_views(subpatterns@),
            ty,
        ),
        TypedPattern::Record { record_def_id, subpatterns, ty } => PatternView::Record(
            record_def_id,
            pattern_views(subpatterns@),
            ty,
        ),
    }
}

pub open spec fn pattern_views(s: Seq<TypedPattern>) -> Seq<PatternView>
    decreases s,
{
    if s.len() == 0 {
        Seq::empty()
    } else {
        pattern_views(s.drop_last()).push(pattern_view(s.last()))
    }
}

pub ghost struct ParamView {
    pub symbol: SymbolId,
    pub name: Option<Seq<char>>,
    pub ty: Type,
}

impl View for TypedParam {
    type V = ParamView;

    open spec fn view(&self) -> ParamView {
        ParamView {
            symbol: self.symbol,
            name: match self.name {
                Some(n) => Some(n@),
                None => None,
            },
            ty: self.ty,
        }
    }
}

pub open spec fn param_views(s: Seq<TypedParam>) -> Seq<ParamView> {
    s.map_values(|p: TypedParam| p@)
}

pub ghost struct CaptureView {
    pub symbol: SymbolId,
    pub name: Seq<char>,
    pub ty: Type,
    pub kind: CaptureKind,
}

impl View for Capture {
    type V = CaptureView;

    open spec fn view(&self) -> CaptureView {
        CaptureView { symbol: self.symbol, name: self.name@, ty: self.ty, kind: self.kind }
    }
}

pub open spec fn capture_views(s: Seq<Capture>) -> Seq<CaptureView> {
    s.map_values(|c: Capture| c@)
}

/// What a node is, apart from its type, its span and the nodes below it.
pub ghost enum Node {
    Lit(LitView),
    Interp(Seq<Seq<char>>, Seq<char>),
    Path(SymbolId),
    FnValue(SymbolId, Seq<char>),
    Bin(BinOp),
    Range(bool),
    Unary(UnaryOp),
    Paren,
    Block,
    If,
    While,
    For(PatternView, Type),
    Loop,
    Break,
    Continue,
    Return,
    Call(SymbolId, Seq<char>, Seq<Type>, bool),
    MethodCall(Seq<char>, Option<RuntimeSymbol>, bool, Purity),
    Tuple,
    ListLit,
    Read(PlanId),
    Parse(PlanId),
    RecordLit(RecordDefId, Seq<u32>),
    TupleIndex(u32),
    FieldGet(u32),
    EnumVariant(EnumDefId, u32),
    Match(Seq<PatternView>),
    Closure(Seq<ParamView>, Seq<CaptureView>, Type, Seq<char>),
    Var(SymbolId, Seq<char>),
    Assign(SymbolId, Seq<char>, AssignOp),
    IndexAssign(Option<RuntimeSymbol>, RuntimeSymbol, AssignOp),
    FieldAssign(u32, AssignOp),
    ExprStmt,
}

/// A typed node: an expression, a block or a statement. The nodes below stand
/// in evaluation order, a block's tail last.
pub ghost struct Tree {
    pub node: Node,
    pub ty: Type,
    pub span: (u32, u32),
    pub kids: Seq<Tree>,
}

/// A node with nothing below it.
pub open spec fn leaf(node: Node, ty: Type, span: (u32, u32)) -> Tree {
    Tree { node, ty, span, kids: Seq::empty() }
}

pub open spec fn opt_expr_trees(e: Option<Box<TypedExpr>>) -> Seq<Tree>
    decreases e,
{
    match e {
        Some(b) => seq![expr_tree(*b)],
        None => Seq::empty(),
    }
}

pub open spec fn opt_block_trees(e: Option<Box<TypedBlock>>) -> Seq<Tree>
    decreases e,
{
    match e {
        Some(b) => seq![block_tree(*b)],
        None => Seq::empty(),
    }
}

pub open spec fn expr_tree(e: TypedExpr) -> Tree
    decreases e,
{
    match e {
        TypedExpr::Lit { value, ty, span } => leaf(Node::Lit(value@), ty, span),
        TypedExpr::Interp { parts, trailing, ty, span } => Tree {
            node: Node::Interp(texts_before(parts@), trailing@),
            ty,
            span,
            kids: hole_trees(parts@),
        },
        TypedExpr::Path { symbol, ty, span } => leaf(Node::Path(symbol), ty, span),
        TypedExpr::FnValue { callee, callee_name, ty, span } => leaf(
            Node::FnValue(callee, callee_name@),
            ty,
            span,
        ),
        TypedExpr::Bin { op, lhs, rhs, ty, span } => Tree {
            node: Node::Bin(op),
            ty,
            span,
            kids: seq![expr_tree(*lhs), expr_tree(*rhs)],
        },
        TypedExpr::Range { start, end, inclusive, ty, span } => Tree {
            node: Node::Range(inclusive),
            ty,
            span,
            kids: seq![expr_tree(*start), expr_tree(*end)],
        },
        TypedExpr::Unary { op, operand, ty, span } => Tree {
            node: Node::Unary(op),
            ty,
            span,
            kids: seq![expr_tree(*operand)],
        },
        TypedExpr::Paren { inner, ty, span } => Tree {
            node: Node::Paren,
            ty,
            span,
            kids: opt_expr_trees(inner),
        },
        TypedExpr::Block(b) => block_tree(*b),
        TypedExpr::If { cond, then_block, else_block, ty, span } => Tree {
            node: Node::If,
            ty,
            span,
            kids: seq![expr_tree(*cond), block_tree(*then_block)] + opt_block_trees(else_block),
        },
        TypedExpr::While { cond, body, ty, span } => Tree {
            node: Node::While,
            ty,
            span,
            kids: seq![expr_tree(*cond), block_tree(*body)],
        },
        TypedExpr::For { binding, iter, body, item_ty, ty, span } => Tree {
            node: Node::For(pattern_view(binding), item_ty),
            ty,
            span,
            kids: seq![expr_tree(*iter), block_tree(*body)],
        },
        TypedExpr::Loop { body, ty, span } => Tree {
            node: Node::Loop,
            ty,
            span,
            kids: seq![block_tree(*body)],
        },
        TypedExpr::Break { value, ty, span } => Tree {
            node: Node::Break,
            ty,
            span,
            kids: opt_expr_trees(value),
        },
        TypedExpr::Continue { ty, span } => leaf(Node::Continue, ty, span),
        TypedExpr::Return { value, ty, span } => Tree {
            node: Node::Return,
            ty,
            span,
            kids: opt_expr_trees(value),
        },
        TypedExpr::Call { callee, callee_name, args, arg_types, callee_expr, ty, span } => Tree {
            node: Node::Call(callee, callee_name@, arg_types@, callee_expr is Some),
            ty,
            span,
            kids: expr_trees(args@) + opt_expr_trees(callee_expr),
        },
        TypedExpr::MethodCall {
            receiver,
            name,
            lowering_symbol,
            receiver_is_iterable,
            args,
            purity,
            ty,
            span,
        } => Tree {
            node: Node::MethodCall(name@, lowering_symbol, receiver_is_iterable, purity),
            ty,
            span,
            kids: seq![expr_tree(*receiver)] + expr_trees(args@),
        },
        TypedExpr::Tuple { elements, ty, span } => Tree {
            node: Node::Tuple,
            ty,
            span,
            kids: expr_trees(elements@),
        },
        TypedExpr::ListLit { elements, ty, span } => Tree {
            node: Node::ListLit,
            ty,
            span,
            kids: expr_trees(elements@),
        },
        TypedExpr::Read { plan, ty, span } => leaf(Node::Read(plan), ty, span),
        TypedExpr::Parse { text, plan, ty, span } => Tree {
            node: Node::Parse(plan),
            ty,
            span,
            kids: seq![expr_tree(*text)],
        },
        TypedExpr::RecordLit { record_def_id, fields, ty, span } => Tree {
            node: Node::RecordLit(record_def_id, field_indices(fields@)),
            ty,
            span,
            kids: field_trees(fields@),
        },
        TypedExpr::TupleIndex { receiver, index, ty, span } => Tree {
            node: Node::TupleIndex(index),
            ty,
            span,
            kids: seq![expr_tree(*receiver)],
        },
        TypedExpr::FieldGet { receiver, field_idx, ty, span } => Tree {
            node: Node::FieldGet(field_idx),
            ty,
            span,
            kids: seq![expr_tree(*receiver)],
        },
        TypedExpr::EnumVariant { enum_def_id, variant_idx, args, ty, span } => Tree {
            node: Node::EnumVariant(enum_def_id, variant_idx),
            ty,
            span,
            kids: expr_trees(args@),
        },
        TypedExpr::Match { scrutinee, arms, ty, span } => Tree {
            node: Node::Match(arm_patterns(arms@)),
            ty,
            span,
            kids: seq![expr_tree(*scrutinee)] + arm_trees(arms@),
        },
        TypedExpr::Closure { params, body, captures, fn_type, fn_name, ty, span } => Tree {
            node: Node::Closure(
                param_views(params@),
                capture_views(captures@),
                fn_type,
                fn_name@,
            ),
            ty,
            span,
            kids: seq![block_tree(*body)],
        },
    }
}

pub open spec fn block_tree(b: TypedBlock) -> Tree
    decreases b,
{
    Tree {
        node: Node::Block,
        ty: b.ty,
        span: (0, 0),
        kids: stmt_trees(b.stmts@).push(expr_tree(b.tail)),
    }
}

pub open spec fn stmt_tree(s: TypedStmt) -> Tree
    decreases s,
{
    match s {
        TypedStmt::Var { symbol, name, ty, init, span } => Tree {
            node: Node::Var(symbol, name@),
            ty,
            span,
            kids: seq![expr_tree(init)],
        },
        TypedStmt::Assign { symbol, name, op, value, span } => Tree {
            node: Node::Assign(symbol, name@, op),
            ty: Type::Unit,
            span,
            kids: seq![expr_tree(value)],
        },
        TypedStmt::IndexAssign { receiver, indices, get, set, op, value, span } => Tree {
            node: Node::IndexAssign(get, set, op),
            ty: Type::Unit,
            span,
            kids: (seq![expr_tree(receiver)] + expr_trees(indices@)).push(expr_tree(value)),
        },
        TypedStmt::FieldAssign { receiver, field_idx, op, value, span } => Tree {
            node: Node::FieldAssign(field_idx, op),
            ty: Type::Unit,
            span,
            kids: seq![expr_tree(receiver), expr_tree(value)],
        },
        TypedStmt::Expr(e) => Tree {
            node: Node::ExprStmt,
            ty: Type::Unit,
            span: (0, 0),
            kids: seq![expr_tree(e)],
        },
    }
}

pub open spec fn stmt_trees(s: Seq<TypedStmt>) -> Seq<Tree>
    decreases s,
{
    if s.len() == 0 {
        Seq::empty()
    } else {
        stmt_trees(s.drop_last()).push(stmt_tree(s.last()))
    }
}

pub open spec fn expr_trees(s: Seq<TypedExpr>) -> Seq<Tree>
    decreases s,
{
    if s.len() == 0 {
        Seq::empty()
    } else {
        expr_trees(s.drop_last()).push(expr_tree(s.last()))
    }
}

pub open spec fn hole_trees(s: Seq<InterpHole>) -> Seq<Tree>
    decreases s,
{
    if s.len() == 0 {
        Seq::empty()
    } else {
        hole_trees(s.drop_last()).push(expr_tree(s.last().hole))
    }
}

pub open spec fn texts_before(s: Seq<InterpHole>) -> Seq<Seq<char>> {
    s.map_values(|h: InterpHole| h.before@)
}

pub open spec fn field_trees(s: Seq<TypedField>) -> Seq<Tree>
    decreases s,
{
    if s.len() == 0 {
        Seq::empty()
    } else {
        field_trees(s.drop_last()).push(expr_tree(s.last().init))
    }
}

pub open spec fn field_indices(s: Seq<TypedField>) -> Seq<u32> {
    s.map_values(|f: TypedField| f.index)
}

pub open spec fn arm_trees(s: Seq<TypedMatchArm>) -> Seq<Tree>
    decreases s,
{
    if s.len() == 0 {
        Seq::empty()
    } else {
        arm_trees(s.drop_last()).push(expr_tree(s.last().body))
    }
}

pub open spec fn arm_patterns(s: Seq<TypedMatchArm>) -> Seq<PatternView> {
    s.map_values(|a: TypedMatchArm| pattern_view(a.pattern))
}

/// The contents of a [`TypedFn`].
pub ghost struct FnView {
    pub symbol: SymbolId,
    pub name: Seq<char>,
    pub params: Seq<ParamView>,
    pub return_type: Type,
    pub body: Tree,
    pub fn_type: Type,
    pub span: (u32, u32),
}

impl View for TypedFn {
    type V = FnView;

    open spec fn view(&self) -> FnView {
        FnView {
            symbol: self.symbol,
            name: self.name@,
            params: param_views(self.params@),
            return_type: self.return_type,
            body: block_tree(self.body),
            fn_type: self.fn_type,
            span: self.span,
        }
    }
}

pub open spec fn item_view(i: TypedItem) -> FnView {
    match i {
        TypedItem::Fn(f) => f@,
    }
}

pub open spec fn item_views(s: Seq<TypedItem>) -> Seq<FnView> {
    s.map_values(|i: TypedItem| item_view(i))
}

// ---------------------------------------------------------------------------
// Reading a tree
// ---------------------------------------------------------------------------

/// What references point at.
pub open spec fn pointees<T>(s: Seq<&T>) -> Seq<T> {
    Seq::new(s.len(), |i: int| *s[i])
}

/// The expressions directly below an expression, in evaluation order.
pub open spec fn child_exprs(e: TypedExpr) -> Seq<TypedExpr> {
    match e {
        TypedExpr::Lit { .. }
        | TypedExpr::Path { .. }
        | TypedExpr::FnValue { .. }
        | TypedExpr::Read { .. }
        | TypedExpr::Continue { .. }
        | TypedExpr::Loop { .. }
        | TypedExpr::Block(_)
        | TypedExpr::Closure { .. } => Seq::empty(),
        TypedExpr::Bin { lhs, rhs, .. } => seq![*lhs, *rhs],
        TypedExpr::Range { start, end, .. } => seq![*start, *end],
        TypedExpr::Unary { operand, .. } => seq![*operand],
        TypedExpr::Paren { inner, .. } => opt_expr(inner),
        TypedExpr::If { cond, .. } => seq![*cond],
        TypedExpr::While { cond, .. } => seq![*cond],
        TypedExpr::For { iter, .. } => seq![*iter],
        TypedExpr::Break { value, .. } => opt_expr(value),
        TypedExpr::Return { value, .. } => opt_expr(value),
        TypedExpr::Call { args, callee_expr, .. } => args@ + opt_expr(callee_expr),
        TypedExpr::MethodCall { receiver, args, .. } => seq![*receiver] + args@,
        TypedExpr::Tuple { elements, .. } => elements@,
        TypedExpr::ListLit { elements, .. } => elements@,
        TypedExpr::Parse { text, .. } => seq![*text],
        TypedExpr::RecordLit { fields, .. } => fields@.map_values(|f: TypedField| f.init),
        TypedExpr::Interp { parts, .. } => parts@.map_values(|h: InterpHole| h.hole),
        TypedExpr::FieldGet { receiver, .. } => seq![*receiver],
        TypedExpr::TupleIndex { receiver, .. } => seq![*receiver],
        TypedExpr::EnumVariant { args, .. } => args@,
        TypedExpr::Match { scrutinee, arms, .. } => seq![*scrutinee] + arms@.map_values(
            |a: TypedMatchArm| a.body,
        ),
    }
}

/// The blocks directly below an expression.
pub open spec fn child_blocks(e: TypedExpr) -> Seq<TypedBlock> {
    match e {
        TypedExpr::Block(b) => seq![*b],
        TypedExpr::If { then_block, else_block, .. } => match else_block {
            Some(b) => seq![*then_block, *b],
            None => seq![*then_block],
        },
        TypedExpr::While { body, .. } => seq![*body],
        TypedExpr::For { body, .. } => seq![*body],
        TypedExpr::Loop { body, .. } => seq![*body],
        TypedExpr::Closure { body, .. } => seq![*body],
        _ => Seq::empty(),
    }
}

pub open spec fn opt_expr(e: Option<Box<TypedExpr>>) -> Seq<TypedExpr> {
    match e {
        Some(b) => seq![*b],
        None => Seq::empty(),
    }
}

pub open spec fn block_trees(s: Seq<TypedBlock>) -> Seq<Tree> {
    s.map_values(|b: TypedBlock| block_tree(b))
}

proof fn lemma_hole_trees(s: Seq<InterpHole>)
    ensures
        hole_trees(s) == expr_trees(s.map_values(|h: InterpHole| h.hole)),
    decreases s.len(),
{
    let m = s.map_values(|h: InterpHole| h.hole);
    if s.len() > 0 {
        lemma_hole_trees(s.drop_last());
        assert(m.drop_last() =~= s.drop_last().map_values(|h: InterpHole| h.hole));
    }
}

proof fn lemma_field_trees(s: Seq<TypedField>)
    ensures
        field_trees(s) == expr_trees(s.map_values(|f: TypedField| f.init)),
    decreases s.len(),
{
    let m = s.map_values(|f: TypedField| f.init);
    if s.len() > 0 {
        lemma_field_trees(s.drop_last());
        assert(m.drop_last() =~= s.drop_last().map_values(|f: TypedField| f.init));
    }
}

proof fn lemma_arm_trees(s: Seq<TypedMatchArm>)
    ensures
        arm_trees(s) == expr_trees(s.map_values(|a: TypedMatchArm| a.body)),
    decreases s.len(),
{
    let m = s.map_values(|a: TypedMatchArm| a.body);
    if s.len() > 0 {
        lemma_arm_trees(s.drop_last());
        assert(m.drop_last() =~= s.drop_last().map_values(|a: TypedMatchArm| a.body));
    }
}

proof fn lemma_trees_concat(a: Seq<TypedExpr>, b: Seq<TypedExpr>)
    ensures
        expr_trees(a + b) == expr_trees(a) + expr_trees(b),
    decreases b.len(),
{
    if b.len() == 0 {
        assert(a + b =~= a);
    } else {
        assert((a + b).drop_last() =~= a + b.drop_last());
        lemma_trees_concat(a, b.drop_last());
        assert(expr_trees(a + b) =~= expr_trees(a) + expr_trees(b));
    }
}

pub proof fn lemma_trees_push(s: Seq<TypedExpr>, e: TypedExpr)
    ensures
        expr_trees(s.push(e)) == expr_trees(s).push(expr_tree(e)),
{
    assert(s.push(e).drop_last() =~= s);
}

proof fn lemma_trees_one(e: TypedExpr)
    ensures
        expr_trees(seq![e]) == seq![expr_tree(e)],
{
    assert(seq![e].drop_last() =~= Seq::empty());
    assert(expr_trees(Seq::empty()) =~= Seq::empty());
    assert(expr_trees(seq![e]) =~= seq![expr_tree(e)]);
}

/// The trees of a list are the first's and the others'.
pub proof fn lemma_trees_first(s: Seq<TypedExpr>)
    requires
        s.len() > 0,
    ensures
        expr_trees(s) == seq![expr_tree(s[0])] + expr_trees(s.skip(1)),
{
    assert(s =~= seq![s[0]] + s.skip(1));
    lemma_trees_concat(seq![s[0]], s.skip(1));
    lemma_trees_one(s[0]);
}

proof fn lemma_trees_two(a: TypedExpr, b: TypedExpr)
    ensures
        expr_trees(seq![a, b]) == seq![expr_tree(a), expr_tree(b)],
{
    assert(seq![a, b].drop_last() =~= seq![a]);
    lemma_trees_one(a);
    assert(expr_trees(seq![a, b]) =~= seq![expr_tree(a), expr_tree(b)]);
}

proof fn lemma_trees_opt(e: Option<Box<TypedExpr>>)
    ensures
        opt_expr_trees(e) == expr_trees(opt_expr(e)),
{
    match e {
        Some(b) => lemma_trees_one(*b),
        None => assert(opt_expr_trees(e) =~= expr_trees(opt_expr(e))),
    }
}

/// A walk over an expression's child expressions and its child blocks comes by
/// every node directly below it, once. A block expression is its block.
pub proof fn law_children_and_blocks_cover(e: TypedExpr)
    ensures
        !(e is Block) ==> expr_tree(e).kids == expr_trees(child_exprs(e)) + block_trees(
            child_blocks(e),
        ),
        e matches TypedExpr::Block(b) ==> child_exprs(e).len() == 0 && block_trees(child_blocks(e))
            == seq![expr_tree(e)],
{
    let bs = block_trees(child_blocks(e));
    match e {
        TypedExpr::Block(b) => assert(bs =~= seq![block_tree(*b)]),
        TypedExpr::Bin { lhs, rhs, .. } => lemma_trees_two(*lhs, *rhs),
        TypedExpr::Range { start, end, .. } => lemma_trees_two(*start, *end),
        TypedExpr::Unary { operand, .. } => lemma_trees_one(*operand),
        TypedExpr::Paren { inner, .. } => lemma_trees_opt(inner),
        TypedExpr::If { cond, then_block, else_block, .. } => {
            lemma_trees_one(*cond);
            assert(bs =~= seq![block_tree(*then_block)] + opt_block_trees(else_block));
        },
        TypedExpr::While { cond, .. } => lemma_trees_one(*cond),
        TypedExpr::For { iter, .. } => lemma_trees_one(*iter),
        TypedExpr::Break { value, .. } => lemma_trees_opt(value),
        TypedExpr::Return { value, .. } => lemma_trees_opt(value),
        TypedExpr::Call { args, callee_expr, .. } => {
            lemma_trees_concat(args@, opt_expr(callee_expr));
            lemma_trees_opt(callee_expr);
        },
        TypedExpr::MethodCall { receiver, args, .. } => {
            lemma_trees_concat(seq![*receiver], args@);
            lemma_trees_one(*receiver);
        },
        TypedExpr::Parse { text, .. } => lemma_trees_one(*text),
        TypedExpr::RecordLit { fields, .. } => lemma_field_trees(fields@),
        TypedExpr::Interp { parts, .. } => lemma_hole_trees(parts@),
        TypedExpr::FieldGet { receiver, .. } => lemma_trees_one(*receiver),
        TypedExpr::TupleIndex { receiver, .. } => lemma_trees_one(*receiver),
        TypedExpr::Match { scrutinee, arms, .. } => {
            lemma_trees_concat(seq![*scrutinee], arms@.map_values(|a: TypedMatchArm| a.body));
            lemma_trees_one(*scrutinee);
            lemma_arm_trees(arms@);
        },
        _ => {},
    }
    if !(e is Block) {
        assert(expr_tree(e).kids =~= expr_trees(child_exprs(e)) + bs);
    }
}

fn push_all<'a>(out: &mut Vec<&'a TypedExpr>, es: &'a Vec<TypedExpr>)
    ensures
        pointees(final(out)@) == pointees(old(out)@) + es@,
{
    let mut i: usize = 0;
    assert(pointees(out@) =~= pointees(old(out)@) + es@.take(0));
    while i < es.len()
        invariant
            i <= es@.len(),
            pointees(out@) == pointees(old(out)@) + es@.take(i as int),
        decreases es@.len() - i,
    {
        let ghost before = out@;
        out.push(&es[i]);
        assert(pointees(out@) =~= pointees(before).push(es@[i as int]));
        assert(es@.take(i + 1) =~= es@.take(i as int).push(es@[i as int]));
        i += 1;
    }
    assert(es@.take(i as int) =~= es@);
}

impl TypedExpr {
    /// This expression's immediate sub-expressions, in evaluation order.
    pub fn children(&self) -> (r: Vec<&TypedExpr>)
        ensures
            pointees(r@) == child_exprs(*self),
    {
        let mut out: Vec<&TypedExpr> = Vec::new();
        match self {
            TypedExpr::Lit { .. }
            | TypedExpr::Path { .. }
            | TypedExpr::FnValue { .. }
            | TypedExpr::Read { .. }
            | TypedExpr::Continue { .. }
            | TypedExpr::Loop { .. }
            | TypedExpr::Block(_)
            | TypedExpr::Closure { .. } => {},
            TypedExpr::Bin { lhs, rhs, .. } => {
                out.push(lhs);
                out.push(rhs);
            },
            TypedExpr::Range { start, end, .. } => {
                out.push(start);
                out.push(end);
            },
            TypedExpr::Unary { operand, .. } => out.push(operand),
            TypedExpr::Paren { inner, .. } => {
                if let Some(x) = inner {
                    out.push(x);
                }
            },
            TypedExpr::If { cond, .. } => out.push(cond),
            TypedExpr::While { cond, .. } => out.push(cond),
            TypedExpr::For { iter, .. } => out.push(iter),
            TypedExpr::Break { value, .. } => {
                if let Some(x) = value {
                    out.push(x);
                }
            },
            TypedExpr::Return { value, .. } => {
                if let Some(x) = value {
                    out.push(x);
                }
            },
            TypedExpr::Call { args, callee_expr, .. } => {
                push_all(&mut out, args);
                if let Some(x) = callee_expr {
                    let ghost before = out@;
                    out.push(x);
                    assert(pointees(out@) =~= pointees(before).push(**x));
                }
            },
            TypedExpr::MethodCall { receiver, args, .. } => {
                out.push(receiver);
                push_all(&mut out, args);
            },
            TypedExpr::Tuple { elements, .. } => push_all(&mut out, elements),
            TypedExpr::ListLit { elements, .. } => push_all(&mut out, elements),
            TypedExpr::Parse { text, .. } => out.push(text),
            TypedExpr::RecordLit { fields, .. } => {
                let mut i: usize = 0;
                while i < fields.len()
                    invariant
                        i <= fields@.len(),
                        out@.len() == i,
                        forall|j: int| 0 <= j < i ==> *(#[trigger] out@[j]) == fields@[j].init,
                    decreases fields@.len() - i,
                {
                    out.push(&fields[i].init);
                    i += 1;
                }
            },
            TypedExpr::Interp { parts, .. } => {
                let mut i: usize = 0;
                while i < parts.len()
                    invariant
                        i <= parts@.len(),
                        out@.len() == i,
                        forall|j: int| 0 <= j < i ==> *(#[trigger] out@[j]) == parts@[j].hole,
                    decreases parts@.len() - i,
                {
                    out.push(&parts[i].hole);
                    i += 1;
                }
            },
            TypedExpr::FieldGet { receiver, .. } => out.push(receiver),
            TypedExpr::TupleIndex { receiver, .. } => out.push(receiver),
            TypedExpr::EnumVariant { args, .. } => push_all(&mut out, args),
            TypedExpr::Match { scrutinee, arms, .. } => {
                out.push(scrutinee);
                let mut i: usize = 0;
                while i < arms.len()
                    invariant
                        i <= arms@.len(),
                        out@.len() == i + 1,
                        *out@[0] == **scrutinee,
                        forall|j: int| 1 <= j <= i ==> *(#[trigger] out@[j]) == arms@[j - 1].body,
                    decreases arms@.len() - i,
                {
                    out.push(&arms[i].body);
                    i += 1;
                }
            },
        }
        assert(pointees(out@) =~= child_exprs(*self));
        out
    }

    /// This expression's immediate sub-blocks.
    pub fn blocks(&self) -> (r: Vec<&TypedBlock>)
        ensures
            pointees(r@) == child_blocks(*self),
    {
        let mut out: Vec<&TypedBlock> = Vec::new();
        match self {
            TypedExpr::Block(b) => out.push(b),
            TypedExpr::If { then_block, else_block, .. } => {
                out.push(then_block);
                if let Some(b) = else_block {
                    out.push(b);
                }
            },
            TypedExpr::While { body, .. } => out.push(body),
            TypedExpr::For { body, .. } => out.push(body),
            TypedExpr::Loop { body, .. } => out.push(body),
            TypedExpr::Closure { body, .. } => out.push(body),
            _ => {},
        }
        assert(pointees(out@) =~= child_blocks(*self));
        out
    }
}

/// The source span of an expression; a block answers with its tail's.
pub open spec fn span_of(e: TypedExpr) -> (u32, u32)
    decreases e,
{
    match e {
        TypedExpr::Block(b) => span_of(b.tail),
        _ => expr_tree(e).span,
    }
}

/// The source span of a typed expression. A block has none of its own and
/// answers with its tail's.
pub fn expr_span(e: &TypedExpr) -> (r: (u32, u32))
    ensures
        r == span_of(*e),
    decreases e,
{
    match e {
        TypedExpr::Lit { span, .. }
        | TypedExpr::Interp { span, .. }
        | TypedExpr::Path { span, .. }
        | TypedExpr::FnValue { span, .. }
        | TypedExpr::Bin { span, .. }
        | TypedExpr::Range { span, .. }
        | TypedExpr::Unary { span, .. }
        | TypedExpr::Paren { span, .. }
        | TypedExpr::If { span, .. }
        | TypedExpr::While { span, .. }
        | TypedExpr::For { span, .. }
        | TypedExpr::Loop { span, .. }
        | TypedExpr::Break { span, .. }
        | TypedExpr::Continue { span, .. }
        | TypedExpr::Return { span, .. }
        | TypedExpr::Call { span, .. }
        | TypedExpr::MethodCall { span, .. }
        | TypedExpr::Tuple { span, .. }
        | TypedExpr::ListLit { span, .. }
        | TypedExpr::Read { span, .. }
        | TypedExpr::Parse { span, .. }
        | TypedExpr::RecordLit { span, .. }
        | TypedExpr::FieldGet { span, .. }
        | TypedExpr::TupleIndex { span, .. }
        | TypedExpr::EnumVariant { span, .. }
        | TypedExpr::Match { span, .. }
        | TypedExpr::Closure { span, .. } => *span,
        TypedExpr::Block(b) => expr_span(&b.tail),
    }
}

/// The type carried by a typed expression.
pub fn expr_ty(e: &TypedExpr) -> (r: Type)
    ensures
        r == expr_tree(*e).ty,
{
    match e {
        TypedExpr::Lit { ty, .. }
        | TypedExpr::Interp { ty, .. }
        | TypedExpr::Path { ty, .. }
        | TypedExpr::FnValue { ty, .. }
        | TypedExpr::Bin { ty, .. }
        | TypedExpr::Range { ty, .. }
        | TypedExpr::Unary { ty, .. }
        | TypedExpr::Paren { ty, .. }
        | TypedExpr::If { ty, .. }
        | TypedExpr::While { ty, .. }
        | TypedExpr::For { ty, .. }
        | TypedExpr::Loop { ty, .. }
        | TypedExpr::Break { ty, .. }
        | TypedExpr::Continue { ty, .. }
        | TypedExpr::Return { ty, .. }
        | TypedExpr::Call { ty, .. }
        | TypedExpr::MethodCall { ty, .. }
        | TypedExpr::Tuple { ty, .. }
        | TypedExpr::ListLit { ty, .. }
        | TypedExpr::Read { ty, .. }
        | TypedExpr::Parse { ty, .. }
        | TypedExpr::RecordLit { ty, .. }
        | TypedExpr::FieldGet { ty, .. }
        | TypedExpr::TupleIndex { ty, .. }
        | TypedExpr::EnumVariant { ty, .. }
        | TypedExpr::Match { ty, .. }
        | TypedExpr::Closure { ty, .. } => ty.dup(),
        TypedExpr::Block(b) => {
            assert(block_tree(**b).ty == b.ty);
            b.ty.dup()
        },
    }
}

/// The expressions directly below a statement, in evaluation order.
pub open spec fn stmt_children(s: TypedStmt) -> Seq<TypedExpr> {
    match s {
        TypedStmt::Var { init, .. } => seq![init],
        TypedStmt::Assign { value, .. } => seq![value],
        TypedStmt::IndexAssign { receiver, indices, value, .. } => (seq![receiver]
            + indices@).push(value),
        TypedStmt::FieldAssign { receiver, value, .. } => seq![receiver, value],
        TypedStmt::Expr(e) => seq![e],
    }
}

/// A statement's immediate sub-expressions, in evaluation order.
pub fn stmt_exprs(s: &TypedStmt) -> (r: Vec<&TypedExpr>)
    ensures
        pointees(r@) == stmt_children(*s),
{
    let mut out: Vec<&TypedExpr> = Vec::new();
    match s {
        TypedStmt::Var { init, .. } => out.push(init),
        TypedStmt::Assign { value, .. } => out.push(value),
        TypedStmt::IndexAssign { receiver, indices, value, .. } => {
            out.push(receiver);
            push_all(&mut out, indices);
            let ghost before = out@;
            out.push(value);
            assert(pointees(out@) =~= pointees(before).push(*value));
        },
        TypedStmt::FieldAssign { receiver, value, .. } => {
            out.push(receiver);
            out.push(value);
        },
        TypedStmt::Expr(e) => out.push(e),
    }
    assert(pointees(out@) =~= stmt_children(*s));
    out
}

fn push_all_mut<'a>(out: &mut Vec<&'a mut TypedExpr>, es: &'a mut [TypedExpr])
    ensures
        final(out)@.len() == old(out)@.len() + old(es)@.len(),
        forall|i: int| 0 <= i < old(out)@.len() ==> (#[trigger] final(out)@[i]) == old(out)@[i],
        forall|i: int|
            old(out)@.len() <= i < final(out)@.len() ==> *(#[trigger] final(out)@[i])
                == old(es)@[i - old(out)@.len()],
        final(es)@.len() == old(es)@.len(),
        forall|i: int|
            old(out)@.len() <= i < final(out)@.len() ==> final(es)@[i - old(out)@.len()]
                == *final(#[trigger] final(out)@[i]),
    decreases old(es)@.len(),
{
    if es.len() == 0 {
        return;
    }
    let ghost n = out@.len();
    let ghost all = es@;
    let (first, rest) = es.split_at_mut(1);
    let ghost others = rest@;
    assert(others =~= all.skip(1));
    out.push(&mut first[0]);
    push_all_mut(out, rest);
    assert forall|i: int| n <= i < out@.len() implies *(#[trigger] out@[i]) == all[i - n] by {
        if i > n {
            assert(others[i - n - 1] == all[i - n]);
        }
    }
}

/// Whether two statements differ at most in the expressions below them.
pub open spec fn same_frame(a: TypedStmt, b: TypedStmt) -> bool {
    match (a, b) {
        (
            TypedStmt::Var { symbol, name, ty, span, .. },
            TypedStmt::Var { symbol: s, name: n, ty: t, span: at, .. },
        ) => symbol == s && name == n && ty == t && span == at,
        (
            TypedStmt::Assign { symbol, name, op, span, .. },
            TypedStmt::Assign { symbol: s, name: n, op: o, span: at, .. },
        ) => symbol == s && name == n && op == o && span == at,
        (
            TypedStmt::IndexAssign { get, set, op, span, .. },
            TypedStmt::IndexAssign { get: g, set: s, op: o, span: at, .. },
        ) => get == g && set == s && op == o && span == at,
        (
            TypedStmt::FieldAssign { field_idx, op, span, .. },
            TypedStmt::FieldAssign { field_idx: f, op: o, span: at, .. },
        ) => field_idx == f && op == o && span == at,
        (TypedStmt::Expr(_), TypedStmt::Expr(_)) => true,
        _ => false,
    }
}

/// The expressions directly below a statement, to be changed in place.
pub fn stmt_exprs_mut<'a>(s: &'a mut TypedStmt) -> (r: Vec<&'a mut TypedExpr>)
    ensures
        r@.len() == stmt_children(*old(s)).len(),
        forall|i: int| 0 <= i < r@.len() ==> *(#[trigger] r@[i]) == stmt_children(*old(s))[i],
        stmt_children(*final(s)).len() == r@.len(),
        forall|i: int|
            0 <= i < r@.len() ==> (#[trigger] stmt_children(*final(s))[i]) == *final(r@[i]),
        same_frame(*old(s), *final(s)),
{
    let mut out: Vec<&'a mut TypedExpr> = Vec::new();
    match s {
        TypedStmt::Var { init, .. } => {
            out.push(init);
        },
        TypedStmt::Assign { value, .. } => {
            out.push(value);
        },
        TypedStmt::FieldAssign { receiver, value, .. } => {
            out.push(receiver);
            out.push(value);
        },
        TypedStmt::Expr(e) => {
            out.push(e);
        },
        TypedStmt::IndexAssign { receiver, indices, value, .. } => {
            out.push(receiver);
            push_all_mut(&mut out, indices.as_mut_slice());
            out.push(value);
        },
    }
    out
}

proof fn lemma_index_assign_kids(receiver: TypedExpr, indices: Seq<TypedExpr>, value: TypedExpr)
    ensures
        expr_trees((seq![receiver] + indices).push(value)) == (seq![expr_tree(receiver)]
            + expr_trees(indices)).push(expr_tree(value)),
{
    lemma_trees_concat(seq![receiver], indices);
    lemma_trees_one(receiver);
    lemma_trees_push(seq![receiver] + indices, value);
}

proof fn lemma_stmt_kids_one(s: TypedStmt)
    requires
        s is Var || s is Assign || s is Expr,
    ensures
        stmt_tree(s).kids == expr_trees(stmt_children(s)),
{
    let e = match s {
        TypedStmt::Var { init, .. } => init,
        TypedStmt::Assign { value, .. } => value,
        TypedStmt::Expr(e) => e,
        _ => arbitrary(),
    };
    lemma_trees_one(e);
    assert(stmt_children(s) == seq![e]);
    assert(stmt_tree(s).kids == seq![expr_tree(e)]);
}

#[verifier::spinoff_prover]
proof fn lemma_stmt_kids_field(s: TypedStmt)
    requires
        s is FieldAssign,
    ensures
        stmt_tree(s).kids == expr_trees(stmt_children(s)),
{
    if let TypedStmt::FieldAssign { receiver, value, .. } = s {
        lemma_trees_two(receiver, value);
        assert(stmt_children(s) == seq![receiver, value]);
        assert(stmt_tree(s).kids == seq![expr_tree(receiver), expr_tree(value)]);
    }
}

proof fn lemma_stmt_kids_index(s: TypedStmt)
    requires
        s is IndexAssign,
    ensures
        stmt_tree(s).kids == expr_trees(stmt_children(s)),
{
    if let TypedStmt::IndexAssign { receiver, indices, value, .. } = s {
        lemma_index_assign_kids(receiver, indices@, value);
        assert(stmt_children(s) == (seq![receiver] + indices@).push(value));
    }
}

/// A walk over a statement's expressions comes by every node directly below it.
pub proof fn law_stmt_children_cover(s: TypedStmt)
    ensures
        stmt_tree(s).kids == expr_trees(stmt_children(s)),
{
    if s is FieldAssign {
        lemma_stmt_kids_field(s);
    } else if s is IndexAssign {
        lemma_stmt_kids_index(s);
    } else {
        lemma_stmt_kids_one(s);
    }
}

/// The source span carried by a typed statement. An expression statement
/// carries it on its expression.
pub fn stmt_span(s: &TypedStmt) -> (r: (u32, u32))
    ensures
        r == (match *s {
            TypedStmt::Expr(e) => span_of(e),
            _ => stmt_tree(*s).span,
        }),
{
    match s {
        TypedStmt::Var { span, .. }
        | TypedStmt::Assign { span, .. }
        | TypedStmt::IndexAssign { span, .. }
        | TypedStmt::FieldAssign { span, .. } => *span,
        TypedStmt::Expr(e) => expr_span(e),
    }
}

impl TypedPattern {
    /// The sub-patterns, one per component of the value the pattern tests.
    pub open spec fn spec_sub_patterns(self) -> Seq<TypedPattern> {
        match self {
            TypedPattern::Wildcard | TypedPattern::Lit { .. } | TypedPattern::Bind { .. } => {
                Seq::empty()
            },
            TypedPattern::EnumVariant { subpatterns, .. }
            | TypedPattern::Tuple { subpatterns, .. }
            | TypedPattern::Record { subpatterns, .. } => subpatterns@,
        }
    }

    /// The sub-patterns this pattern matches against the components of the
    /// value it tests, and none for a pattern without components.
    pub fn sub_patterns(&self) -> (r: &[TypedPattern])
        ensures
            r@ == self.spec_sub_patterns(),
    {
        match self {
            TypedPattern::Wildcard | TypedPattern::Lit { .. } | TypedPattern::Bind { .. } => &[],
            TypedPattern::EnumVariant { subpatterns, .. }
            | TypedPattern::Tuple { subpatterns, .. }
            | TypedPattern::Record { subpatterns, .. } => subpatterns.as_slice(),
        }
    }
}

/// Whether a pattern matches every value of its type: it is a wildcard or a
/// name, or takes a tuple or record apart by patterns that do.
pub open spec fn irrefutable(p: PatternView) -> bool
    decreases p,
{
    match p {
        PatternView::Wildcard => true,
        PatternView::Bind(_, _, _, _) => true,
        PatternView::Tuple(subs, _) => all_irrefutable(subs),
        PatternView::Record(_, subs, _) => all_irrefutable(subs),
        _ => false,
    }
}

pub open spec fn all_irrefutable(s: Seq<PatternView>) -> bool
    decreases s,
{
    s.len() == 0 || (all_irrefutable(s.drop_last()) && irrefutable(s.last()))
}

/// The word for the first test a pattern makes.
pub open spec fn refutable_word(p: PatternView) -> Option<Seq<char>>
    decreases p,
{
    match p {
        PatternView::Wildcard => None,
        PatternView::Bind(_, _, _, _) => None,
        PatternView::Lit(_, _) => Some("a literal pattern"@),
        PatternView::EnumVariant(_, _, _, _) => Some("a variant pattern"@),
        PatternView::Tuple(subs, _) => first_refutable(subs),
        PatternView::Record(_, subs, _) => first_refutable(subs),
    }
}

pub open spec fn first_refutable(s: Seq<PatternView>) -> Option<Seq<char>>
    decreases s,
{
    if s.len() == 0 {
        None
    } else {
        match first_refutable(s.drop_last()) {
            Some(w) => Some(w),
            None => refutable_word(s.last()),
        }
    }
}

pub proof fn lemma_pattern_views_index(s: Seq<TypedPattern>, n: int)
    requires
        0 <= n <= s.len(),
    ensures
        pattern_views(s).len() == s.len(),
        pattern_views(s).take(n) == pattern_views(s.take(n)),
        forall|i: int| 0 <= i < s.len() ==> pattern_views(s)[i] == pattern_view(#[trigger] s[i]),
    decreases s.len(),
{
    if s.len() > 0 {
        let m = if n == s.len() {
            n - 1
        } else {
            n
        };
        lemma_pattern_views_index(s.drop_last(), m);
        if n == s.len() {
            assert(s.take(n) =~= s);
            assert(pattern_views(s).take(n) =~= pattern_views(s));
        } else {
            assert(s.drop_last().take(n) =~= s.take(n));
            assert(pattern_views(s).take(n) =~= pattern_views(s.drop_last()).take(n));
        }
        assert forall|i: int| 0 <= i < s.len() implies pattern_views(s)[i] == pattern_view(
            #[trigger] s[i],
        ) by {
            if i < s.len() - 1 {
                assert(s.drop_last()[i] == s[i]);
            }
        }
    } else {
        assert(s.take(n) =~= s);
        assert(pattern_views(s).take(n) =~= pattern_views(s));
    }
}

proof fn lemma_first_refutable_prefix(s: Seq<PatternView>, n: int)
    requires
        0 <= n <= s.len(),
        first_refutable(s.take(n)) is Some,
    ensures
        first_refutable(s) == first_refutable(s.take(n)),
    decreases s.len(),
{
    if n == s.len() {
        assert(s.take(n) =~= s);
    } else {
        assert(s.drop_last().take(n) =~= s.take(n));
        lemma_first_refutable_prefix(s.drop_last(), n);
    }
}

fn refutable_among(subs: &Vec<TypedPattern>) -> (r: Option<&'static str>)
    ensures
        match first_refutable(pattern_views(subs@)) {
            Some(w) => r matches Some(x) && x@ == w,
            None => r is None,
        },
    decreases subs,
{
    let ghost views = pattern_views(subs@);
    let mut i: usize = 0;
    assert(views.take(0) =~= Seq::empty());
    while i < subs.len()
        invariant
            i <= subs@.len(),
            views == pattern_views(subs@),
            first_refutable(views.take(i as int)) is None,
        decreases subs@.len() - i,
    {
        proof {
            lemma_pattern_views_index(subs@, 0);
            assert(views.take(i + 1).drop_last() =~= views.take(i as int));
            assert(views.take(i + 1).last() == pattern_view(subs@[i as int]));
        }
        let found = refutable_reason(&subs[i]);
        if found.is_some() {
            proof {
                lemma_first_refutable_prefix(views, i + 1);
            }
            return found;
        }
        i += 1;
    }
    proof {
        lemma_pattern_views_index(subs@, 0);
        assert(views.take(i as int) =~= views);
    }
    None
}

/// Why a pattern can fail to match, or `None` when it matches every value of
/// its type.
pub fn refutable_reason(pat: &TypedPattern) -> (r: Option<&'static str>)
    ensures
        match refutable_word(pattern_view(*pat)) {
            Some(w) => r matches Some(x) && x@ == w,
            None => r is None,
        },
    decreases pat,
{
    match pat {
        TypedPattern::Wildcard | TypedPattern::Bind { .. } => None,
        TypedPattern::Lit { .. } => Some("a literal pattern"),
        TypedPattern::EnumVariant { .. } => Some("a variant pattern"),
        TypedPattern::Tuple { subpatterns, .. } => refutable_among(subpatterns),
        TypedPattern::Record { subpatterns, .. } => refutable_among(subpatterns),
    }
}

/// A pattern has no reason to fail exactly when it matches every value.
pub proof fn law_no_reason_means_irrefutable(p: PatternView)
    ensures
        refutable_word(p) is None <==> irrefutable(p),
    decreases p,
{
    match p {
        PatternView::Tuple(subs, _) => lemma_no_reason_among(subs),
        PatternView::Record(_, subs, _) => lemma_no_reason_among(subs),
        _ => {},
    }
}

proof fn lemma_no_reason_among(s: Seq<PatternView>)
    ensures
        first_refutable(s) is None <==> all_irrefutable(s),
    decreases s,
{
    if s.len() > 0 {
        lemma_no_reason_among(s.drop_last());
        law_no_reason_means_irrefutable(s.last());
    }
}

} // verus!
