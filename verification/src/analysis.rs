//! The result of analyzing one file.
use vstd::prelude::*;

use crate::ast::{SourceFile, TopLevel};
use crate::capture::ResolvedRef;
use crate::descend::{descendants, file_descendants, visits, Seen, Visit};
use crate::exhaustive::{check_all, check_matches};
use crate::infer::{env_view, texts, types_view, Inferer};
use crate::infer_spec::{infer_file, Inf};
use crate::name_table::NameTable;
use crate::parser_copy::index_views;
use crate::parser_index::ParserIndex;
use crate::pattern::{check_binding_patterns, check_visits, PatternEnv};
use crate::report_order::{in_source_order, ordered, sort_reports};
use crate::scope::{only_root, ScopeId, ScopeTree, ScopesView};
use crate::source::{
    diag_views, error_at, text, DiagCode, DiagView, Diagnostic, FileId, FileSpan, Span,
};
use crate::symbol::{SymbolId, SymbolView};
use crate::tables::{NodeKey, NodeMap, SpanMap};
use crate::tree::{Purity, RuntimeSymbol};
use crate::typedb::{Scheme, SchemeView, TypeDb};
use crate::types::{Type, TypeList};

verus! {

/// How a method of the catalog is carried out.
#[derive(Clone, Copy, Debug, PartialEq, Eq, Structural)]
pub enum MethodLowering {
    /// By a routine of the runtime.
    RuntimeSymbol(RuntimeSymbol),
    /// By a routine whose answer is an unboxed scalar.
    ScalarPrimitive(RuntimeSymbol),
    /// By the compiler itself.
    Intrinsic(u32),
}

/// The catalog row a method call selected.
#[derive(Clone, Copy, Debug, PartialEq, Eq, Structural)]
pub struct MethodEntry {
    pub lowering: MethodLowering,
    pub purity: Purity,
    /// Whether the row's receiver is any iterable.
    pub receiver_is_iterable: bool,
    /// For a row that stores through a subscript: how the same receiver is read
    /// through one.
    pub index_read: Option<MethodLowering>,
}

/// One resolved method call: the catalog row it selected and the types of its
/// receiver and result.
#[derive(Clone, Debug)]
pub struct MethodRef {
    pub entry: MethodEntry,
    pub receiver: Type,
    pub result: Type,
}

/// A method of the standard library: its type, the receiver as the first
/// parameter, and how it is carried out.
#[derive(Clone, Debug)]
pub struct MethodRow {
    pub name: String,
    pub scheme: Scheme,
    pub entry: MethodEntry,
}

/// The contents of a [`MethodRow`].
pub ghost struct MethodRowView {
    pub name: Seq<char>,
    pub scheme: SchemeView,
    pub entry: MethodEntry,
}

impl View for MethodRow {
    type V = MethodRowView;

    open spec fn view(&self) -> MethodRowView {
        MethodRowView { name: self.name@, scheme: self.scheme@, entry: self.entry }
    }
}

pub open spec fn row_views(s: Seq<MethodRow>) -> Seq<MethodRowView> {
    s.map_values(|r: MethodRow| r@)
}

/// One call site: the callee and the types it was called at.
#[derive(Clone, Debug)]
pub struct CallSite {
    pub callee: SymbolId,
    pub arg_types: TypeList,
    pub result: Type,
}

/// The full result of analyzing one file.
#[derive(Debug)]
pub struct Analysis {
    pub db: TypeDb,
    pub names: NameTable,
    /// The scopes of the file.
    pub scopes: ScopeTree,
    /// Each name reference, by its range.
    pub refs: SpanMap<ResolvedRef>,
    /// The inferred type of each name reference, by its range.
    pub ref_types: SpanMap<Type>,
    /// Each declaration, by the range of its name.
    pub decls: SpanMap<SymbolId>,
    /// Each call site, by the range of the callee's name.
    pub call_sites: SpanMap<CallSite>,
    /// The inferred type of every expression.
    pub expr_types: NodeMap<Type>,
    /// Each method call, by the range of the method's name.
    pub method_refs: SpanMap<MethodRef>,
    /// Each `read`/`parse` body's tree and the types in it, in the order inference
    /// came by them.
    pub parser_exprs: Vec<ParserIndex>,
    /// What there is to report, in the order of the source.
    pub diagnostics: Vec<Diagnostic>,
}

impl Analysis {
    /// Whether analysis found nothing to report.
    pub fn is_clean(&self) -> (r: bool)
        ensures
            r == (self.diagnostics@.len() == 0),
    {
        self.diagnostics.len() == 0
    }
}

/// What every file starts with: the types and names of the standard library.
#[derive(Debug)]
pub struct Prelude {
    pub db: TypeDb,
    pub names: NameTable,
    /// The types that have a name.
    pub types: Vec<(String, Type)>,
    /// The methods; of two that fit, the earlier counts.
    pub methods: Vec<MethodRow>,
}

/// The names in scope at the start of a file.
pub open spec fn prelude_env(names: Seq<SymbolView>) -> Seq<(Seq<char>, SymbolId)> {
    names.map_values(|s: SymbolView| (s.name, s.id))
}

/// The scopes at the start of a file: its own, where the names of the standard
/// library are.
pub open spec fn prelude_scopes(names: Seq<SymbolView>) -> ScopesView {
    ScopesView {
        parents: only_root().parents,
        members: names.map_values(|s: SymbolView| (ScopeId(0), s.id)),
    }
}

/// The names the assignments of a file store to.
pub open spec fn targets(vs: Seq<Visit>) -> Seq<Seq<char>>
    decreases vs.len(),
{
    if vs.len() == 0 {
        Seq::empty()
    } else {
        match vs.last() {
            Visit::Target(n) => targets(vs.drop_last()).push(n.text@),
            Visit::Expr(_) => targets(vs.drop_last()),
        }
    }
}

/// What inference knows before it starts on a file.
pub open spec fn start(file: FileId, prelude: Prelude, items: Seq<TopLevel>) -> Inf {
    Inf {
        file,
        db: prelude.db@,
        names: prelude.names@,
        env: prelude_env(prelude.names@),
        types: types_view(prelude.types@),
        methods: row_views(prelude.methods@),
        assigned: targets(file_descendants(items)),
        refs: Map::empty(),
        ref_types: Map::empty(),
        decls: Map::empty(),
        call_sites: Map::empty(),
        expr_types: Map::empty(),
        method_refs: Map::empty(),
        diags: Seq::empty(),
        needs: Seq::empty(),
        deferred: Seq::empty(),
        tops: Seq::empty(),
        inside: None,
        calls: Seq::empty(),
        outer_uses: Seq::empty(),
        scopes: prelude_scopes(prelude.names@),
        scope: ScopeId(0),
        parser_exprs: Seq::empty(),
        result: None,
        breaks: Seq::empty(),
    }
}

/// The reports of a file: those of inference, those on its matches and those on
/// its other patterns, in the order of the source.
pub open spec fn reports(file: FileId, st: Inf, items: Seq<TopLevel>) -> Seq<DiagView> {
    in_source_order(found(file, st, items))
}

/// The reports of a file, pass by pass.
pub open spec fn found(file: FileId, st: Inf, items: Seq<TopLevel>) -> Seq<DiagView> {
    let env = PatternEnv { file, db: st.db, decls: st.decls };
    let vs = file_descendants(items);
    check_visits(env, st.names, st.ref_types, vs, check_all(env, st.expr_types, vs, st.diags))
}

fn assigned_names(root: &SourceFile) -> (r: Vec<String>)
    ensures
        texts(r@) == targets(file_descendants(root.items@)),
{
    let nodes = descendants(root);
    let ghost vs = file_descendants(root.items@);
    let mut out: Vec<String> = Vec::new();
    let mut i: usize = 0;
    assert(texts(out@) =~= Seq::empty());
    while i < nodes.len()
        invariant
            i <= nodes@.len(),
            visits(nodes@) == vs,
            texts(out@) == targets(vs.take(i as int)),
        decreases nodes@.len() - i,
    {
        assert(vs[i as int] == nodes@[i as int]@);
        assert(vs.take(i + 1).drop_last() =~= vs.take(i as int));
        assert(vs.take(i + 1).last() == vs[i as int]);
        match &nodes[i] {
            Seen::Target(n) => {
                let ghost before = texts(out@);
                out.push(text(&n.text));
                assert(texts(out@) =~= before.push(n.text@));
            },
            Seen::Expr(_) => {},
        }
        i += 1;
    }
    assert(vs.take(i as int) =~= vs);
    out
}

fn starting_env(names: &NameTable) -> (r: Vec<(String, SymbolId)>)
    ensures
        env_view(r@) == prelude_env(names@),
{
    let all = names.all();
    let mut out: Vec<(String, SymbolId)> = Vec::new();
    let mut i: usize = 0;
    while i < all.len()
        invariant
            i <= all@.len(),
            out@.len() == i,
            forall|j: int|
                0 <= j < i ==> (#[trigger] out@[j]).0@ == all@[j].name@ && out@[j].1 == all@[j].id,
        decreases all@.len() - i,
    {
        out.push((text(&all[i].name), all[i].id));
        i += 1;
    }
    assert forall|j: int| 0 <= j < all@.len() implies names@[j] == (#[trigger] all@[j])@ by {
    }
    assert(env_view(out@) =~= prelude_env(names@));
    out
}

fn starting_scopes(names: &NameTable) -> (r: ScopeTree)
    ensures
        r@ == prelude_scopes(names@),
{
    let all = names.all();
    let mut out = ScopeTree::new();
    let mut i: usize = 0;
    while i < all.len()
        invariant
            i <= all@.len(),
            out@.parents == only_root().parents,
            out@.members.len() == i,
            forall|j: int| 0 <= j < i ==> (#[trigger] out@.members[j]) == (ScopeId(0), all@[j].id),
        decreases all@.len() - i,
    {
        out.declare(ScopeId(0), all[i].id);
        i += 1;
    }
    assert forall|j: int| 0 <= j < all@.len() implies names@[j] == (#[trigger] all@[j])@ by {
    }
    assert(out@.members =~= prelude_scopes(names@).members);
    out
}

/// Analyzes a file: resolves its names, infers its types, and checks that its
/// matches cover everything and its bindings cannot fail.
pub fn analyze(file: FileId, root: &SourceFile, prelude: Prelude) -> (r: Analysis)
    ensures
        ({
            let st = infer_file(start(file, prelude, root.items@), root.items@);
            &&& r.db@ == st.db
            &&& r.names@ == st.names
            &&& r.scopes@ == st.scopes
            &&& r.refs@ == st.refs
            &&& r.ref_types@ == st.ref_types
            &&& r.decls@ == st.decls
            &&& r.call_sites@ == st.call_sites
            &&& r.expr_types@ == st.expr_types
            &&& r.method_refs@ == st.method_refs
            &&& index_views(r.parser_exprs@) == st.parser_exprs
            &&& diag_views(r.diagnostics@) == reports(file, st, root.items@)
        }),
        ordered(diag_views(r.diagnostics@)),
{
    let ghost given = prelude;
    let scopes = starting_scopes(&prelude.names);
    let mut st = Inferer {
        file,
        env: starting_env(&prelude.names),
        db: prelude.db,
        names: prelude.names,
        types: prelude.types,
        methods: prelude.methods,
        assigned: assigned_names(root),
        refs: SpanMap::new(),
        ref_types: SpanMap::new(),
        decls: SpanMap::new(),
        call_sites: SpanMap::new(),
        expr_types: NodeMap::new(),
        method_refs: SpanMap::new(),
        diags: Vec::new(),
        needs: Vec::new(),
        deferred: Vec::new(),
        tops: Vec::new(),
        inside: None,
        calls: Vec::new(),
        outer_uses: Vec::new(),
        scopes,
        scope: ScopeId(0),
        parser_exprs: Vec::new(),
        result: None,
        breaks: Vec::new(),
    };
    assert(st@.calls =~= Seq::empty());
    assert(st@.outer_uses =~= Seq::empty());
    assert(st@.parser_exprs =~= Seq::empty());
    assert(st@.diags =~= Seq::empty());
    assert(st@.needs =~= Seq::empty());
    assert(st@.deferred =~= Seq::empty());
    assert(st@.tops =~= Seq::empty());
    assert(st@.breaks =~= Seq::empty());
    assert(st@ == start(file, given, root.items@));
    st.infer_file(&root.items);
    let mut found = st.diags;
    check_matches(file, root, &st.db, &st.decls, &st.expr_types, &mut found);
    check_binding_patterns(
        file,
        root,
        &st.db,
        &st.names,
        &st.decls,
        &st.ref_types,
        &mut found,
    );
    Analysis {
        db: st.db,
        names: st.names,
        scopes: st.scopes,
        refs: st.refs,
        ref_types: st.ref_types,
        decls: st.decls,
        call_sites: st.call_sites,
        expr_types: st.expr_types,
        method_refs: st.method_refs,
        parser_exprs: st.parser_exprs,
        diagnostics: sort_reports(&found),
    }
}

/// Analyzes the root of a parse, which is a file unless something went wrong
/// before: then that is the one report.
pub fn analyze_root(file: FileId, root: &Option<SourceFile>, prelude: Prelude) -> (r: Analysis)
    ensures
        match *root {
            Some(root) => {
                let st = infer_file(start(file, prelude, root.items@), root.items@);
                &&& r.db@ == st.db
                &&& r.names@ == st.names
                &&& r.scopes@ == st.scopes
                &&& r.refs@ == st.refs
                &&& r.ref_types@ == st.ref_types
                &&& r.decls@ == st.decls
                &&& r.call_sites@ == st.call_sites
                &&& r.expr_types@ == st.expr_types
                &&& r.method_refs@ == st.method_refs
                &&& index_views(r.parser_exprs@) == st.parser_exprs
                &&& diag_views(r.diagnostics@) == reports(file, st, root.items@)
            },
            None => {
                &&& r.db@.enums.len() == 0
                &&& r.db@.records.len() == 0
                &&& r.db@.solution.len() == 0
                &&& r.names@.len() == 0
                &&& r.scopes@ == only_root()
                &&& r.refs@ == Map::<Span, ResolvedRef>::empty()
                &&& r.ref_types@ == Map::<Span, Type>::empty()
                &&& r.decls@ == Map::<Span, SymbolId>::empty()
                &&& r.call_sites@ == Map::<Span, CallSite>::empty()
                &&& r.expr_types@ == Map::<NodeKey, Type>::empty()
                &&& r.method_refs@ == Map::<Span, MethodRef>::empty()
                &&& r.parser_exprs@ == Seq::<ParserIndex>::empty()
                &&& diag_views(r.diagnostics@) == seq![
                    error_at(
                        FileSpan { file, span: Span { start: 0, end: 0 } },
                        DiagCode::InternalNotASourceFile,
                        "internal: parse tree root is not a SOURCE_FILE"@,
                    ),
                ]
            },
        },
        ordered(diag_views(r.diagnostics@)),
{
    if let Some(root) = root {
        return analyze(file, root, prelude);
    }
    let d = Diagnostic::error(
        FileSpan::new(file, Span::new(0, 0)),
        DiagCode::InternalNotASourceFile,
        text("internal: parse tree root is not a SOURCE_FILE"),
    );
    let diagnostics = vec![d];
    assert(diag_views(diagnostics@) =~= seq![d@]);
    let parser_exprs: Vec<ParserIndex> = Vec::new();
    assert(parser_exprs@ =~= Seq::empty());
    Analysis {
        db: TypeDb::new(),
        names: NameTable::default(),
        scopes: ScopeTree::new(),
        refs: SpanMap::new(),
        ref_types: SpanMap::new(),
        decls: SpanMap::new(),
        call_sites: SpanMap::new(),
        expr_types: NodeMap::new(),
        method_refs: SpanMap::new(),
        parser_exprs,
        diagnostics,
    }
}

} // verus!
