//! The declarations of a program.
use vstd::prelude::*;

use crate::source::FileSpan;
use crate::typedb::{opt_scheme, Scheme, SchemeView};

verus! {

/// The identity of one declaration.
#[derive(Clone, Copy, Debug, PartialEq, Eq, Structural)]
pub struct SymbolId(pub u32);

impl SymbolId {
    /// Stands where a name resolved to no declaration. No table hands it out.
    pub open spec fn spec_unresolved() -> SymbolId {
        SymbolId(u32::MAX)
    }

    pub fn unresolved() -> (r: SymbolId)
        ensures
            r == SymbolId::spec_unresolved(),
    {
        SymbolId(u32::MAX)
    }
}

/// What introduced a name.
#[derive(Clone, Copy, Debug, PartialEq, Eq, Structural)]
pub enum SymbolKind {
    /// A binding statement.
    Let,
    /// A `var` statement.
    Var,
    /// A top-level function.
    Fn,
    /// A parameter of a function or a closure.
    Param,
    /// A name a pattern binds.
    Pattern,
    /// A declared `struct`.
    Struct,
    /// A declared `enum`.
    Enum,
    /// A variant of an enum.
    EnumVariant,
    /// A name every program starts with.
    Builtin,
}

impl SymbolKind {
    /// Whether the name lives in a frame, so that a closure can capture it.
    pub open spec fn spec_is_local(self) -> bool {
        match self {
            SymbolKind::Let | SymbolKind::Var | SymbolKind::Param | SymbolKind::Pattern => true,
            _ => false,
        }
    }

    pub fn is_local(self) -> (r: bool)
        ensures
            r == self.spec_is_local(),
    {
        match self {
            SymbolKind::Let | SymbolKind::Var | SymbolKind::Param | SymbolKind::Pattern => true,
            _ => false,
        }
    }
}

/// One declaration.
#[derive(Clone, Debug)]
pub struct Symbol {
    pub id: SymbolId,
    pub name: String,
    pub kind: SymbolKind,
    /// Where the name is declared, for a name the source declares.
    pub decl: Option<FileSpan>,
    /// Whether some assignment writes the binding.
    pub reassigned: bool,
    /// The inferred type, once inference has reached the declaration.
    pub scheme: Option<Scheme>,
}

/// The contents of a [`Symbol`].
pub ghost struct SymbolView {
    pub id: SymbolId,
    pub name: Seq<char>,
    pub kind: SymbolKind,
    pub decl: Option<FileSpan>,
    pub reassigned: bool,
    pub scheme: Option<SchemeView>,
}

impl View for Symbol {
    type V = SymbolView;

    open spec fn view(&self) -> SymbolView {
        SymbolView {
            id: self.id,
            name: self.name@,
            kind: self.kind,
            decl: self.decl,
            reassigned: self.reassigned,
            scheme: opt_scheme(self.scheme),
        }
    }
}

} // verus!
