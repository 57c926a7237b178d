//! The syntax tree analysis reads.
//!
//! A part the parser could not produce is absent, never made up: every child
//! that a malformed program can lack is an `Option`.
use vstd::prelude::*;

use crate::parser_index::ParserIndex;
use crate::source::{Diagnostic, Span};
use crate::tables::{NodeKey, SyntaxKind};
use crate::types::Type;

verus! {

/// A name token.
#[derive(Debug)]
pub struct Ident {
    pub text: String,
    pub range: Span,
}

/// A literal token, decoded.
#[derive(Debug)]
pub enum LitToken {
    /// The value, unless it is outside the range of an `Int`, and the digits.
    Int(Option<i64>, String),
    /// The bits of the value.
    Float(u64),
    Text(String),
    /// The scalar value, unless the literal is malformed.
    Char(Option<u32>),
    /// A backtick template.
    Template,
    True,
    False,
    Other,
}

/// A written type.
#[derive(Debug)]
pub struct TypeExpr {
    pub range: Span,
    pub kind: TypeExprKind,
}

#[derive(Debug)]
pub enum TypeExprKind {
    Name(Ident, Vec<TypeExpr>),
    Tuple(Vec<TypeExpr>),
    Func(Vec<TypeExpr>, Option<Box<TypeExpr>>),
}

/// A pattern.
#[derive(Debug)]
pub struct Pattern {
    pub range: Span,
    pub kind: PatternKind,
}

#[derive(Debug)]
pub enum PatternKind {
    Wildcard,
    Literal(Option<LitToken>),
    /// A bare name: a binding, or a variant without a payload.
    Name(Ident),
    /// `Variant(sub, ...)`.
    Variant(Ident, Vec<Pattern>),
    Tuple(Vec<Pattern>),
    /// `Head { field, field: sub, ... }`, the head optional.
    Record(Option<Ident>, Vec<FieldPattern>),
}

/// One field of a record pattern; a field without a pattern binds its own name.
#[derive(Debug)]
pub struct FieldPattern {
    pub name: Option<Ident>,
    pub pattern: Option<Pattern>,
}

/// The identity of a compiled parser plan.
#[derive(Clone, Copy, Debug, PartialEq, Eq, Structural)]
pub struct PlanId(pub u32);

/// The parser expression of a `read` or `parse`, with what its own analysis
/// came to.
#[derive(Debug)]
pub struct ParserBody {
    pub range: Span,
    /// The registered plan, unless the expression was rejected.
    pub plan: Option<PlanId>,
    /// The type the plan produces, unless the expression was rejected.
    pub result_type: Option<Type>,
    /// Its tree and the types in it, exactly when it has a type.
    pub index: Option<ParserIndex>,
    /// Why it has no type.
    pub reports: Vec<Diagnostic>,
    /// Why it has no plan.
    pub plan_reports: Vec<Diagnostic>,
}

/// A piece of an interpolated text literal.
#[derive(Debug)]
pub enum InterpPart {
    Fragment(String),
    Hole(Expr),
}

#[derive(Clone, Copy, Debug, PartialEq, Eq, Structural)]
pub enum BinToken {
    Plus,
    Minus,
    Star,
    Slash,
    Percent,
    Eq2,
    Neq,
    Lt,
    Gt,
    LtEq,
    GtEq,
    Pipe2,
    Amp2,
}

#[derive(Clone, Copy, Debug, PartialEq, Eq, Structural)]
pub enum UnaryToken {
    Minus,
    Bang,
}

#[derive(Clone, Copy, Debug, PartialEq, Eq, Structural)]
pub enum AssignToken {
    Eq,
    PlusEq,
    MinusEq,
    StarEq,
    SlashEq,
    PercentEq,
}

/// The operators that store through a place.
#[derive(Clone, Copy, Debug, PartialEq, Eq, Structural)]
pub enum PlaceAssignOp {
    Store,
    Min,
    Max,
    Plus,
    Minus,
    Times,
    Div,
    Rem,
}

/// One field of a record literal; a field without an expression is the variable
/// of its own name.
#[derive(Debug)]
pub struct FieldInit {
    pub name: Option<Ident>,
    pub expr: Option<Box<Expr>>,
}

#[derive(Debug)]
pub struct MatchArm {
    pub pattern: Option<Pattern>,
    pub body: Option<Box<Expr>>,
}

/// A parameter of a function or closure: named, a wildcard, or a pattern.
#[derive(Debug)]
pub struct Param {
    pub name: Option<Ident>,
    pub wildcard: Option<Span>,
    pub pattern: Option<Pattern>,
    pub annotation: Option<TypeExpr>,
}

/// A `{ ... }` block.
#[derive(Debug)]
pub struct Block {
    pub range: Span,
    pub stmts: Vec<Stmt>,
}

/// An expression.
#[derive(Debug)]
pub struct Expr {
    pub range: Span,
    pub kind: ExprKind,
}

#[derive(Debug)]
#[allow(inconsistent_fields)]
pub enum ExprKind {
    Literal(Option<LitToken>),
    Interp(Vec<InterpPart>),
    Path(Option<Ident>),
    Bin { lhs: Option<Box<Expr>>, op: Option<BinToken>, rhs: Option<Box<Expr>> },
    Range { start: Option<Box<Expr>>, end: Option<Box<Expr>>, inclusive: bool },
    Unary { op: Option<UnaryToken>, operand: Option<Box<Expr>> },
    Paren(Option<Box<Expr>>),
    Block(Block),
    If { cond: Option<Box<Expr>>, then_branch: Option<Block>, else_branch: Option<Box<Expr>> },
    While { cond: Option<Box<Expr>>, body: Option<Block> },
    For { binding: Option<Pattern>, iter: Option<Box<Expr>>, body: Option<Block> },
    Loop { body: Option<Block> },
    Break(Option<Box<Expr>>),
    Continue,
    Return(Option<Box<Expr>>),
    /// A call of a name, or of an expression when there is no name.
    Call {
        callee: Option<Ident>,
        type_args: Vec<TypeExpr>,
        callee_expr: Option<Box<Expr>>,
        args: Vec<Expr>,
    },
    MethodCall { receiver: Option<Box<Expr>>, name: Option<Ident>, args: Vec<Expr> },
    Tuple(Vec<Expr>),
    List(Vec<Expr>),
    Read(Option<ParserBody>),
    Parse { text: Option<Box<Expr>>, parser: Option<ParserBody> },
    RecordLit { head: Option<Ident>, fields: Vec<FieldInit> },
    FieldGet { receiver: Option<Box<Expr>>, name: Option<Ident> },
    TupleIndex { receiver: Option<Box<Expr>>, index: Option<u64> },
    Index { receiver: Option<Box<Expr>>, indices: Vec<Expr> },
    Match { scrutinee: Option<Box<Expr>>, arms: Vec<MatchArm> },
    Closure { params: Vec<Param>, body: Option<Box<Expr>> },
    Error,
}

/// A store through a place: `place = value`, `place += value`, ...
#[derive(Debug)]
pub struct Store {
    pub target: Option<Box<Expr>>,
    pub op: PlaceAssignOp,
    pub value: Option<Box<Expr>>,
}

/// A statement of a block.
#[derive(Debug)]
pub struct Stmt {
    pub range: Span,
    pub kind: StmtKind,
}

#[derive(Debug)]
#[allow(inconsistent_fields)]
pub enum StmtKind {
    /// `var name: T = init`; a binding without a name keeps nothing.
    Var { name: Option<Ident>, annotation: Option<TypeExpr>, init: Option<Box<Expr>> },
    /// `name = value`, `name += value`, ...
    Assign { name: Option<Ident>, op: Option<AssignToken>, value: Option<Box<Expr>> },
    /// `place = value`, `place += value`, ...
    PlaceAssign(Store),
    Expr(Option<Box<Expr>>),
    /// Anything that is not a statement.
    Other,
}

#[derive(Debug)]
pub struct FnItem {
    pub range: Span,
    pub name: Option<Ident>,
    pub params: Vec<Param>,
    pub result: Option<TypeExpr>,
    pub body: Option<Block>,
}

#[derive(Debug)]
pub struct FieldDecl {
    pub name: Option<Ident>,
    pub ty: Option<TypeExpr>,
}

#[derive(Debug)]
pub struct StructItem {
    pub range: Span,
    pub name: Option<Ident>,
    pub fields: Vec<FieldDecl>,
}

#[derive(Debug)]
pub struct VariantDecl {
    pub name: Option<Ident>,
    pub payload: Vec<TypeExpr>,
}

#[derive(Debug)]
pub struct EnumItem {
    pub range: Span,
    pub name: Option<Ident>,
    pub variants: Vec<VariantDecl>,
}

/// Something at the top level of a file.
#[derive(Debug)]
pub enum TopLevel {
    Fn(FnItem),
    Struct(StructItem),
    Enum(EnumItem),
    Stmt(Stmt),
}

/// A whole file.
#[derive(Debug)]
pub struct SourceFile {
    pub range: Span,
    pub items: Vec<TopLevel>,
}

impl Expr {
    pub open spec fn spec_syntax_kind(self) -> SyntaxKind {
        match self.kind {
            ExprKind::Literal(_) => SyntaxKind::Literal,
            ExprKind::Interp(_) => SyntaxKind::InterpExpr,
            ExprKind::Path(_) => SyntaxKind::PathExpr,
            ExprKind::Bin { .. } => SyntaxKind::BinExpr,
            ExprKind::Range { .. } => SyntaxKind::RangeExpr,
            ExprKind::Unary { .. } => SyntaxKind::UnaryExpr,
            ExprKind::Paren(_) => SyntaxKind::ParenExpr,
            ExprKind::Block(_) => SyntaxKind::BlockExpr,
            ExprKind::If { .. } => SyntaxKind::IfExpr,
            ExprKind::While { .. } => SyntaxKind::WhileExpr,
            ExprKind::For { .. } => SyntaxKind::ForExpr,
            ExprKind::Loop { .. } => SyntaxKind::LoopExpr,
            ExprKind::Break(_) => SyntaxKind::BreakExpr,
            ExprKind::Continue => SyntaxKind::ContinueExpr,
            ExprKind::Return(_) => SyntaxKind::ReturnExpr,
            ExprKind::Call { .. } => SyntaxKind::CallExpr,
            ExprKind::MethodCall { .. } => SyntaxKind::MethodCallExpr,
            ExprKind::Tuple(_) => SyntaxKind::TupleExpr,
            ExprKind::List(_) => SyntaxKind::ListExpr,
            ExprKind::Read(_) => SyntaxKind::ReadExpr,
            ExprKind::Parse { .. } => SyntaxKind::ParseExpr,
            ExprKind::RecordLit { .. } => SyntaxKind::RecordLitExpr,
            ExprKind::FieldGet { .. } => SyntaxKind::FieldExpr,
            ExprKind::TupleIndex { .. } => SyntaxKind::TupleIndexExpr,
            ExprKind::Index { .. } => SyntaxKind::IndexExpr,
            ExprKind::Match { .. } => SyntaxKind::MatchExpr,
            ExprKind::Closure { .. } => SyntaxKind::ClosureExpr,
            ExprKind::Error => SyntaxKind::ErrorNode,
        }
    }

    pub fn syntax_kind(&self) -> (r: SyntaxKind)
        ensures
            r == self.spec_syntax_kind(),
    {
        match &self.kind {
            ExprKind::Literal(_) => SyntaxKind::Literal,
            ExprKind::Interp(_) => SyntaxKind::InterpExpr,
            ExprKind::Path(_) => SyntaxKind::PathExpr,
            ExprKind::Bin { .. } => SyntaxKind::BinExpr,
            ExprKind::Range { .. } => SyntaxKind::RangeExpr,
            ExprKind::Unary { .. } => SyntaxKind::UnaryExpr,
            ExprKind::Paren(_) => SyntaxKind::ParenExpr,
            ExprKind::Block(_) => SyntaxKind::BlockExpr,
            ExprKind::If { .. } => SyntaxKind::IfExpr,
            ExprKind::While { .. } => SyntaxKind::WhileExpr,
            ExprKind::For { .. } => SyntaxKind::ForExpr,
            ExprKind::Loop { .. } => SyntaxKind::LoopExpr,
            ExprKind::Break(_) => SyntaxKind::BreakExpr,
            ExprKind::Continue => SyntaxKind::ContinueExpr,
            ExprKind::Return(_) => SyntaxKind::ReturnExpr,
            ExprKind::Call { .. } => SyntaxKind::CallExpr,
            ExprKind::MethodCall { .. } => SyntaxKind::MethodCallExpr,
            ExprKind::Tuple(_) => SyntaxKind::TupleExpr,
            ExprKind::List(_) => SyntaxKind::ListExpr,
            ExprKind::Read(_) => SyntaxKind::ReadExpr,
            ExprKind::Parse { .. } => SyntaxKind::ParseExpr,
            ExprKind::RecordLit { .. } => SyntaxKind::RecordLitExpr,
            ExprKind::FieldGet { .. } => SyntaxKind::FieldExpr,
            ExprKind::TupleIndex { .. } => SyntaxKind::TupleIndexExpr,
            ExprKind::Index { .. } => SyntaxKind::IndexExpr,
            ExprKind::Match { .. } => SyntaxKind::MatchExpr,
            ExprKind::Closure { .. } => SyntaxKind::ClosureExpr,
            ExprKind::Error => SyntaxKind::ErrorNode,
        }
    }

    /// The expression's identity.
    pub open spec fn spec_key(self) -> NodeKey {
        NodeKey(self.range, self.spec_syntax_kind())
    }

    pub fn key(&self) -> (r: NodeKey)
        ensures
            r == self.spec_key(),
    {
        NodeKey(self.range, self.syntax_kind())
    }
}

} // verus!
