//! Analysis and lowering of Praxis programs.
//!
//! A file goes through [`analyze`], which resolves its names, infers its types
//! and checks its matches; through [`lower`], which turns it into a tree with a
//! type on every node; and through [`monomorphize`], which leaves no generic
//! function in it.
pub mod analysis;
pub mod argument_laws;
pub mod ast;
pub mod capture;
pub mod catalog;
pub mod cell_laws;
pub mod copy_laws;
pub mod coverage_laws;
pub mod cycles;
pub mod descend;
pub mod exhaustive;
pub mod file_laws;
pub mod infer;
pub mod infer_expr;
pub mod infer_file;
pub mod infer_laws;
pub mod infer_spec;
pub mod lower;
pub mod lower_laws;
pub mod lower_spec;
pub mod meaning_laws;
pub mod mono;
pub mod mono_laws;
pub mod mono_spec;
pub mod name_table;
pub mod parser_ast;
pub mod parser_copy;
pub mod parser_index;
pub mod parser_lower;
pub mod pattern;
pub mod recursion;
pub mod report_order;
pub mod scope;
pub mod source;
pub mod structure_laws;
pub mod symbol;
pub mod tables;
pub mod tree;
pub mod tree_copy;
pub mod type_laws;
pub mod typedb;
pub mod types;
pub mod unify;
pub mod value_laws;
pub mod visit_laws;
pub mod witness;

pub use analysis::{analyze, analyze_root, Analysis, CallSite, MethodRef, Prelude};
pub use ast::PlanId;
pub use capture::ResolvedRef;
pub use catalog::pattern_to_type_named;
pub use lower::{entry_point, lower, ENTRY_NAME};
pub use mono::monomorphize;
pub use name_table::NameTable;
pub use parser_index::{CaptureAt, ParserIndex, ParserMode};
pub use parser_lower::{analyze_parser_expr, synthesize_parser_type, ParserAnalysis};
pub use scope::{ScopeId, ScopeTree};
pub use symbol::{Symbol, SymbolId, SymbolKind};
pub use tables::NodeKey;
pub use tree::{
    expr_span, expr_ty, stmt_exprs, stmt_exprs_mut, stmt_span, AssignOp, BinOp, Lit, TypedBlock,
    TypedExpr, TypedFn, TypedItem, TypedMatchArm, TypedModule, TypedParam, TypedPattern, TypedStmt,
    UnaryOp,
};
