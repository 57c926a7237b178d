//! Copies of parser trees, and what a copy keeps.
use vstd::prelude::*;

use crate::parser_ast::{
    AtomicKind, BlockItem, ChoiceCase, ParserAst, RepeatedTail, SectionItem, TemplatePart,
};
use crate::parser_index::ParserIndex;
use crate::source::Span;
use crate::typedb::opt_text;
use crate::types::Type;

verus! {

/// What a node of a parser tree holds besides its children.
pub ghost enum AstNode {
    Atomic(AtomicKind),
    Template(Seq<PartView>),
    Lines,
    Sections,
    /// The names of the fields, and of the one that takes what is left.
    SectionsNamed(Seq<Seq<char>>, Option<Seq<char>>),
    Csv,
    Ws,
    Sep(Seq<char>),
    Grid,
    GridRagged(Seq<char>),
    /// The names of the items that have one.
    Block(Seq<Option<Seq<char>>>),
    Choice(Seq<Seq<char>>),
    Optional,
    Scan,
    OneOf(Seq<char>),
    Characters(Option<Seq<char>>),
    Matrix,
}

/// One run of a template, without the parser of a capture.
pub ghost enum PartView {
    Literal(Seq<char>, Span),
    Capture(Option<Seq<char>>, Option<Span>, Span),
}

/// The contents of a parser tree: a capture's parser, a field's, an item's or a
/// case's is a child.
pub ghost struct AstView {
    pub node: AstNode,
    pub span: Span,
    pub kids: Seq<AstView>,
}

/// The contents of a [`ParserIndex`].
pub ghost struct IndexView {
    pub expr_range: Span,
    pub ast: AstView,
    pub node_types: Seq<(Span, Type)>,
}

pub open spec fn part_view(p: TemplatePart) -> PartView {
    match p {
        TemplatePart::Literal { text, span } => PartView::Literal(text@, span),
        TemplatePart::Capture { name, name_span, span, .. } => PartView::Capture(
            opt_text(name),
            name_span,
            span,
        ),
    }
}

pub open spec fn part_views(s: Seq<TemplatePart>) -> Seq<PartView> {
    s.map_values(|p: TemplatePart| part_view(p))
}

pub open spec fn section_names(s: Seq<SectionItem>) -> Seq<Seq<char>> {
    s.map_values(|f: SectionItem| f.name@)
}

pub open spec fn block_name(b: BlockItem) -> Option<Seq<char>> {
    match b {
        BlockItem::Positional(_) => None,
        BlockItem::Named { name, .. } => Some(name@),
    }
}

pub open spec fn block_names(s: Seq<BlockItem>) -> Seq<Option<Seq<char>>> {
    s.map_values(|b: BlockItem| block_name(b))
}

pub open spec fn case_names(s: Seq<ChoiceCase>) -> Seq<Seq<char>> {
    s.map_values(|c: ChoiceCase| c.name@)
}

pub open spec fn ast_view(a: ParserAst) -> AstView
    decreases a,
{
    match a {
        ParserAst::Atomic { kind, span } => AstView {
            node: AstNode::Atomic(kind),
            span,
            kids: Seq::empty(),
        },
        ParserAst::Template { parts, span } => AstView {
            node: AstNode::Template(part_views(parts@)),
            span,
            kids: part_kids(parts@),
        },
        ParserAst::SectionsNamed { fields, repeated_tail, span } => AstView {
            node: AstNode::SectionsNamed(
                section_names(fields@),
                match repeated_tail {
                    Some(t) => Some(t.name@),
                    None => None,
                },
            ),
            span,
            kids: match repeated_tail {
                Some(t) => section_kids(fields@).push(ast_view(*t.parser)),
                None => section_kids(fields@),
            },
        },
        ParserAst::Block { items, span } => AstView {
            node: AstNode::Block(block_names(items@)),
            span,
            kids: block_kids(items@),
        },
        ParserAst::Choice { cases, span } => AstView {
            node: AstNode::Choice(case_names(cases@)),
            span,
            kids: case_kids(cases@),
        },
        ParserAst::OneOf { set, span } => AstView {
            node: AstNode::OneOf(set@),
            span,
            kids: Seq::empty(),
        },
        ParserAst::Lines { child, span } => AstView {
            node: AstNode::Lines,
            span,
            kids: seq![ast_view(*child)],
        },
        ParserAst::Sections { child, span } => AstView {
            node: AstNode::Sections,
            span,
            kids: seq![ast_view(*child)],
        },
        ParserAst::Csv { child, span } => AstView {
            node: AstNode::Csv,
            span,
            kids: seq![ast_view(*child)],
        },
        ParserAst::Ws { child, span } => AstView {
            node: AstNode::Ws,
            span,
            kids: seq![ast_view(*child)],
        },
        ParserAst::Sep { sep, child, span } => AstView {
            node: AstNode::Sep(sep@),
            span,
            kids: seq![ast_view(*child)],
        },
        ParserAst::Grid { child, span } => AstView {
            node: AstNode::Grid,
            span,
            kids: seq![ast_view(*child)],
        },
        ParserAst::GridRagged { fill, child, span } => AstView {
            node: AstNode::GridRagged(fill@),
            span,
            kids: seq![ast_view(*child)],
        },
        ParserAst::Optional { child, span } => AstView {
            node: AstNode::Optional,
            span,
            kids: seq![ast_view(*child)],
        },
        ParserAst::Scan { child, span } => AstView {
            node: AstNode::Scan,
            span,
            kids: seq![ast_view(*child)],
        },
        ParserAst::Characters { skip, child, span } => AstView {
            node: AstNode::Characters(opt_text(skip)),
            span,
            kids: seq![ast_view(*child)],
        },
        ParserAst::Matrix { child, span } => AstView {
            node: AstNode::Matrix,
            span,
            kids: seq![ast_view(*child)],
        },
    }
}

pub open spec fn part_kids(s: Seq<TemplatePart>) -> Seq<AstView>
    decreases s,
{
    if s.len() == 0 {
        Seq::empty()
    } else {
        match s.last() {
            TemplatePart::Literal { .. } => part_kids(s.drop_last()),
            TemplatePart::Capture { parser, .. } => part_kids(s.drop_last()).push(ast_view(parser)),
        }
    }
}

pub open spec fn section_kids(s: Seq<SectionItem>) -> Seq<AstView>
    decreases s,
{
    if s.len() == 0 {
        Seq::empty()
    } else {
        section_kids(s.drop_last()).push(ast_view(s.last().parser))
    }
}

pub open spec fn block_kids(s: Seq<BlockItem>) -> Seq<AstView>
    decreases s,
{
    if s.len() == 0 {
        Seq::empty()
    } else {
        match s.last() {
            BlockItem::Positional(p) => block_kids(s.drop_last()).push(ast_view(p)),
            BlockItem::Named { parser, .. } => block_kids(s.drop_last()).push(ast_view(parser)),
        }
    }
}

pub open spec fn case_kids(s: Seq<ChoiceCase>) -> Seq<AstView>
    decreases s,
{
    if s.len() == 0 {
        Seq::empty()
    } else {
        case_kids(s.drop_last()).push(ast_view(s.last().parser))
    }
}

impl View for ParserIndex {
    type V = IndexView;

    open spec fn view(&self) -> IndexView {
        IndexView {
            expr_range: self.expr_range,
            ast: ast_view(self.ast),
            node_types: self.node_types@,
        }
    }
}

pub open spec fn index_views(s: Seq<ParserIndex>) -> Seq<IndexView> {
    s.map_values(|x: ParserIndex| x@)
}

// ---------------------------------------------------------------------------
// Copies
// ---------------------------------------------------------------------------

fn copy_text(t: &Option<String>) -> (r: Option<String>)
    ensures
        opt_text(r) == opt_text(*t),
{
    match t {
        Some(s) => Some(s.clone()),
        None => None,
    }
}

/// A copy of a parser tree.
pub fn copy_ast(a: &ParserAst) -> (r: ParserAst)
    ensures
        ast_view(r) == ast_view(*a),
    decreases a,
{
    match a {
        ParserAst::Atomic { kind, span } => ParserAst::Atomic { kind: *kind, span: *span },
        ParserAst::Template { parts, span } => ParserAst::Template {
            parts: copy_parts(parts),
            span: *span,
        },
        ParserAst::SectionsNamed { fields, repeated_tail, span } => {
            let tail: Option<RepeatedTail> = match repeated_tail {
                Some(t) => Some(
                    RepeatedTail { name: t.name.clone(), parser: Box::new(copy_ast(&t.parser)) },
                ),
                None => None,
            };
            ParserAst::SectionsNamed {
                fields: copy_sections(fields),
                repeated_tail: tail,
                span: *span,
            }
        },
        ParserAst::Block { items, span } => ParserAst::Block {
            items: copy_blocks(items),
            span: *span,
        },
        ParserAst::Choice { cases, span } => ParserAst::Choice {
            cases: copy_cases(cases),
            span: *span,
        },
        ParserAst::OneOf { set, span } => ParserAst::OneOf { set: set.clone(), span: *span },
        ParserAst::Lines { child, span } => ParserAst::Lines {
            child: Box::new(copy_ast(child)),
            span: *span,
        },
        ParserAst::Sections { child, span } => ParserAst::Sections {
            child: Box::new(copy_ast(child)),
            span: *span,
        },
        ParserAst::Csv { child, span } => ParserAst::Csv {
            child: Box::new(copy_ast(child)),
            span: *span,
        },
        ParserAst::Ws { child, span } => ParserAst::Ws {
            child: Box::new(copy_ast(child)),
            span: *span,
        },
        ParserAst::Sep { sep, child, span } => ParserAst::Sep {
            sep: sep.clone(), child: Box::new(copy_ast(child)),
            span: *span,
        },
        ParserAst::Grid { child, span } => ParserAst::Grid {
            child: Box::new(copy_ast(child)),
            span: *span,
        },
        ParserAst::GridRagged { fill, child, span } => ParserAst::GridRagged {
            fill: fill.clone(), child: Box::new(copy_ast(child)),
            span: *span,
        },
        ParserAst::Optional { child, span } => ParserAst::Optional {
            child: Box::new(copy_ast(child)),
            span: *span,
        },
        ParserAst::Scan { child, span } => ParserAst::Scan {
            child: Box::new(copy_ast(child)),
            span: *span,
        },
        ParserAst::Characters { skip, child, span } => ParserAst::Characters {
            skip: copy_text(skip), child: Box::new(copy_ast(child)),
            span: *span,
        },
        ParserAst::Matrix { child, span } => ParserAst::Matrix {
            child: Box::new(copy_ast(child)),
            span: *span,
        },
    }
}

fn copy_parts(s: &Vec<TemplatePart>) -> (r: Vec<TemplatePart>)
    ensures
        part_views(r@) == part_views(s@),
        part_kids(r@) == part_kids(s@),
    decreases s,
{
    let mut out: Vec<TemplatePart> = Vec::new();
    let mut i: usize = 0;
    assert(part_views(out@) =~= part_views(s@.take(0)));
    while i < s.len()
        invariant
            i <= s@.len(),
            part_views(out@) == part_views(s@.take(i as int)),
            part_kids(out@) == part_kids(s@.take(i as int)),
        decreases s@.len() - i,
    {
        assert(s@.take(i + 1).drop_last() =~= s@.take(i as int));
        assert(s@.take(i + 1).last() == s@[i as int]);
        let ghost before = out@;
        let ghost names = part_views(out@);
        let x = match &s[i] {
            TemplatePart::Literal { text, span } => TemplatePart::Literal {
                text: text.clone(),
                span: *span,
            },
            TemplatePart::Capture { name, name_span, parser, span } => TemplatePart::Capture {
                name: copy_text(name),
                name_span: *name_span,
                parser: copy_ast(parser),
                span: *span,
            },
        };
        out.push(x);
        assert(out@.drop_last() =~= before);
        assert(part_views(out@) =~= part_views(s@.take(i + 1))) by {
            assert(s@.take(i + 1) =~= s@.take(i as int).push(s@[i as int]));
            assert(part_views(s@.take(i + 1)) =~= names.push(part_views(s@.take(i + 1)).last()));
        }
        i += 1;
    }
    assert(s@.take(i as int) =~= s@);
    out
}

fn copy_sections(s: &Vec<SectionItem>) -> (r: Vec<SectionItem>)
    ensures
        section_names(r@) == section_names(s@),
        section_kids(r@) == section_kids(s@),
    decreases s,
{
    let mut out: Vec<SectionItem> = Vec::new();
    let mut i: usize = 0;
    assert(section_names(out@) =~= section_names(s@.take(0)));
    while i < s.len()
        invariant
            i <= s@.len(),
            section_names(out@) == section_names(s@.take(i as int)),
            section_kids(out@) == section_kids(s@.take(i as int)),
        decreases s@.len() - i,
    {
        assert(s@.take(i + 1).drop_last() =~= s@.take(i as int));
        assert(s@.take(i + 1).last() == s@[i as int]);
        let ghost before = out@;
        let ghost names = section_names(out@);
        let x = SectionItem { name: s[i].name.clone(), parser: copy_ast(&s[i].parser) };
        out.push(x);
        assert(out@.drop_last() =~= before);
        assert(section_names(out@) =~= section_names(s@.take(i + 1))) by {
            assert(s@.take(i + 1) =~= s@.take(i as int).push(s@[i as int]));
            assert(section_names(s@.take(i + 1)) =~= names.push(section_names(s@.take(i + 1)).last()));
        }
        i += 1;
    }
    assert(s@.take(i as int) =~= s@);
    out
}

fn copy_blocks(s: &Vec<BlockItem>) -> (r: Vec<BlockItem>)
    ensures
        block_names(r@) == block_names(s@),
        block_kids(r@) == block_kids(s@),
    decreases s,
{
    let mut out: Vec<BlockItem> = Vec::new();
    let mut i: usize = 0;
    assert(block_names(out@) =~= block_names(s@.take(0)));
    while i < s.len()
        invariant
            i <= s@.len(),
            block_names(out@) == block_names(s@.take(i as int)),
            block_kids(out@) == block_kids(s@.take(i as int)),
        decreases s@.len() - i,
    {
        assert(s@.take(i + 1).drop_last() =~= s@.take(i as int));
        assert(s@.take(i + 1).last() == s@[i as int]);
        let ghost before = out@;
        let ghost names = block_names(out@);
        let x = match &s[i] {
            BlockItem::Positional(p) => BlockItem::Positional(copy_ast(p)),
            BlockItem::Named { name, parser } => BlockItem::Named {
                name: name.clone(),
                parser: copy_ast(parser),
            },
        };
        out.push(x);
        assert(out@.drop_last() =~= before);
        assert(block_names(out@) =~= block_names(s@.take(i + 1))) by {
            assert(s@.take(i + 1) =~= s@.take(i as int).push(s@[i as int]));
            assert(block_names(s@.take(i + 1)) =~= names.push(block_names(s@.take(i + 1)).last()));
        }
        i += 1;
    }
    assert(s@.take(i as int) =~= s@);
    out
}

fn copy_cases(s: &Vec<ChoiceCase>) -> (r: Vec<ChoiceCase>)
    ensures
        case_names(r@) == case_names(s@),
        case_kids(r@) == case_kids(s@),
    decreases s,
{
    let mut out: Vec<ChoiceCase> = Vec::new();
    let mut i: usize = 0;
    assert(case_names(out@) =~= case_names(s@.take(0)));
    while i < s.len()
        invariant
            i <= s@.len(),
            case_names(out@) == case_names(s@.take(i as int)),
            case_kids(out@) == case_kids(s@.take(i as int)),
        decreases s@.len() - i,
    {
        assert(s@.take(i + 1).drop_last() =~= s@.take(i as int));
        assert(s@.take(i + 1).last() == s@[i as int]);
        let ghost before = out@;
        let ghost names = case_names(out@);
        let x = ChoiceCase { name: s[i].name.clone(), parser: copy_ast(&s[i].parser) };
        out.push(x);
        assert(out@.drop_last() =~= before);
        assert(case_names(out@) =~= case_names(s@.take(i + 1))) by {
            assert(s@.take(i + 1) =~= s@.take(i as int).push(s@[i as int]));
            assert(case_names(s@.take(i + 1)) =~= names.push(case_names(s@.take(i + 1)).last()));
        }
        i += 1;
    }
    assert(s@.take(i as int) =~= s@);
    out
}

impl ParserIndex {
    /// A copy of the index.
    pub fn dup(&self) -> (r: ParserIndex)
        ensures
            r@ == self@,
    {
        let mut node_types: Vec<(Span, Type)> = Vec::new();
        let mut i: usize = 0;
        while i < self.node_types.len()
            invariant
                i <= self.node_types@.len(),
                node_types@ =~= self.node_types@.take(i as int),
            decreases self.node_types@.len() - i,
        {
            node_types.push((self.node_types[i].0, self.node_types[i].1.dup()));
            i += 1;
        }
        assert(node_types@ =~= self.node_types@);
        ParserIndex { expr_range: self.expr_range, ast: copy_ast(&self.ast), node_types }
    }
}

impl Clone for ParserAst {
    fn clone(&self) -> (r: ParserAst)
        ensures
            ast_view(r) == ast_view(*self),
    {
        copy_ast(self)
    }
}

impl Clone for ParserIndex {
    fn clone(&self) -> (r: ParserIndex)
        ensures
            r@ == self@,
    {
        self.dup()
    }
}

} // verus!
