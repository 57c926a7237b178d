//! The retained tree of a `read`/`parse` body, with a type for each of its nodes.
//!
//! This answers what an editor asks about the inside of a parser expression:
//! the type under the cursor, which part of the sublanguage the cursor is in,
//! and where every capture, literal run, constructor and atomic parser stands.
use vstd::prelude::*;

use crate::parser_ast::{
    AtomicKind, BlockItem, ChoiceCase, Constructor, ParserAst, SectionItem, TemplatePart,
};
use crate::source::Span;
use crate::types::Type;

verus! {

/// One `read`/`parse` body's retained analysis. Every span is a file offset.
#[derive(Debug)]
pub struct ParserIndex {
    /// What follows `read`, or `parse`'s second argument.
    pub expr_range: Span,
    /// The converted tree.
    pub ast: ParserAst,
    /// The type of each node, keyed by its span, children before parents.
    pub node_types: Vec<(Span, Type)>,
}

/// Where the cursor is inside a `read`/`parse` body. The innermost answer that
/// applies is given.
#[derive(Clone, Copy, Debug, PartialEq, Eq, Structural)]
pub enum ParserMode {
    /// Not inside any parser expression.
    Outside,
    /// Inside a parser expression, but not inside a backtick template.
    Expression,
    /// Inside a template, but not inside one of its captures.
    Template,
    /// Inside a capture's braces, but not on its parser.
    Capture,
    /// On a capture's parser.
    AtomicName,
}

/// One capture's spans.
#[derive(Clone, Copy, Debug, PartialEq, Eq, Structural)]
pub struct CaptureAt {
    /// The whole capture, both braces included.
    pub span: Span,
    /// The capture's name, for a capture that has one.
    pub name_span: Option<Span>,
    /// The capture's parser.
    pub parser_span: Span,
}

/// Whether `span` covers `offset`, its end included: a cursor just past the last
/// byte of a name is still in it.
fn span_contains(span: Span, offset: u32) -> (r: bool)
    ensures
        r == span.covers(offset),
{
    span.start <= offset && offset <= span.end
}

// ---------------------------------------------------------------------------
// The tree, as nodes with children
// ---------------------------------------------------------------------------

pub open spec fn section_parsers(s: Seq<SectionItem>) -> Seq<ParserAst> {
    s.map_values(|i: SectionItem| i.parser)
}

pub open spec fn block_parser(i: BlockItem) -> ParserAst {
    match i {
        BlockItem::Positional(p) => p,
        BlockItem::Named { parser, .. } => parser,
    }
}

pub open spec fn block_parsers(s: Seq<BlockItem>) -> Seq<ParserAst> {
    s.map_values(|i: BlockItem| block_parser(i))
}

pub open spec fn choice_parsers(s: Seq<ChoiceCase>) -> Seq<ParserAst> {
    s.map_values(|c: ChoiceCase| c.parser)
}

/// The node's parser children, in source order. A template has none: its
/// children hang off its parts.
pub open spec fn kids(ast: ParserAst) -> Seq<ParserAst> {
    match ast {
        ParserAst::Atomic { .. } | ParserAst::OneOf { .. } | ParserAst::Template { .. } => {
            Seq::empty()
        },
        ParserAst::Lines { child, .. }
        | ParserAst::Sections { child, .. }
        | ParserAst::Csv { child, .. }
        | ParserAst::Ws { child, .. }
        | ParserAst::Sep { child, .. }
        | ParserAst::Grid { child, .. }
        | ParserAst::Optional { child, .. }
        | ParserAst::Scan { child, .. }
        | ParserAst::Characters { child, .. }
        | ParserAst::Matrix { child, .. }
        | ParserAst::GridRagged { child, .. } => seq![*child],
        ParserAst::SectionsNamed { fields, repeated_tail, .. } => section_parsers(fields@) + (
        match repeated_tail {
            Some(t) => seq![*t.parser],
            None => Seq::empty(),
        }),
        ParserAst::Block { items, .. } => block_parsers(items@),
        ParserAst::Choice { cases, .. } => choice_parsers(cases@),
    }
}

/// The constructor a node was written with; an atomic parser and a template
/// have none.
pub open spec fn constructor_of(ast: ParserAst) -> Option<Constructor> {
    match ast {
        ParserAst::Atomic { .. } | ParserAst::Template { .. } => None,
        ParserAst::Lines { .. } => Some(Constructor::Lines),
        ParserAst::Sections { .. } | ParserAst::SectionsNamed { .. } => Some(Constructor::Sections),
        ParserAst::Csv { .. } => Some(Constructor::Csv),
        ParserAst::Ws { .. } => Some(Constructor::Ws),
        ParserAst::Sep { .. } => Some(Constructor::Sep),
        ParserAst::Grid { .. } | ParserAst::GridRagged { .. } => Some(Constructor::Grid),
        ParserAst::Block { .. } => Some(Constructor::Block),
        ParserAst::Choice { .. } => Some(Constructor::Choice),
        ParserAst::Optional { .. } => Some(Constructor::Optional),
        ParserAst::Scan { .. } => Some(Constructor::Scan),
        ParserAst::OneOf { .. } => Some(Constructor::OneOf),
        ParserAst::Characters { .. } => Some(Constructor::Chars),
        ParserAst::Matrix { .. } => Some(Constructor::Matrix),
    }
}

/// How many nodes a tree has.
pub open spec fn weight(ast: ParserAst) -> nat
    decreases ast,
{
    match ast {
        ParserAst::Atomic { .. } | ParserAst::OneOf { .. } => 1,
        ParserAst::Template { parts, .. } => 1 + weight_parts(parts@),
        ParserAst::Lines { child, .. }
        | ParserAst::Sections { child, .. }
        | ParserAst::Csv { child, .. }
        | ParserAst::Ws { child, .. }
        | ParserAst::Sep { child, .. }
        | ParserAst::Grid { child, .. }
        | ParserAst::Optional { child, .. }
        | ParserAst::Scan { child, .. }
        | ParserAst::Characters { child, .. }
        | ParserAst::Matrix { child, .. }
        | ParserAst::GridRagged { child, .. } => 1 + weight(*child),
        ParserAst::SectionsNamed { fields, repeated_tail, .. } => 1 + weight_sections(fields@) + (
        match repeated_tail {
            Some(t) => weight(*t.parser),
            None => 0,
        }),
        ParserAst::Block { items, .. } => 1 + weight_block(items@),
        ParserAst::Choice { cases, .. } => 1 + weight_choice(cases@),
    }
}

pub open spec fn weight_parts(s: Seq<TemplatePart>) -> nat
    decreases s,
{
    if s.len() == 0 {
        0
    } else {
        weight_parts(s.drop_last()) + (match s.last() {
            TemplatePart::Literal { .. } => 0,
            TemplatePart::Capture { parser, .. } => weight(parser),
        })
    }
}

pub open spec fn weight_sections(s: Seq<SectionItem>) -> nat
    decreases s,
{
    if s.len() == 0 {
        0
    } else {
        weight_sections(s.drop_last()) + weight(s.last().parser)
    }
}

pub open spec fn weight_block(s: Seq<BlockItem>) -> nat
    decreases s,
{
    if s.len() == 0 {
        0
    } else {
        weight_block(s.drop_last()) + (match s.last() {
            BlockItem::Positional(p) => weight(p),
            BlockItem::Named { parser, .. } => weight(parser),
        })
    }
}

pub open spec fn weight_choice(s: Seq<ChoiceCase>) -> nat
    decreases s,
{
    if s.len() == 0 {
        0
    } else {
        weight_choice(s.drop_last()) + weight(s.last().parser)
    }
}

pub open spec fn weights(s: Seq<ParserAst>) -> nat
    decreases s.len(),
{
    if s.len() == 0 {
        0
    } else {
        weights(s.drop_last()) + weight(s.last())
    }
}

proof fn lemma_weight_sections(s: Seq<SectionItem>)
    ensures
        weights(section_parsers(s)) == weight_sections(s),
    decreases s.len(),
{
    if s.len() > 0 {
        lemma_weight_sections(s.drop_last());
        assert(section_parsers(s).drop_last() =~= section_parsers(s.drop_last()));
    }
}

proof fn lemma_weight_block(s: Seq<BlockItem>)
    ensures
        weights(block_parsers(s)) == weight_block(s),
    decreases s.len(),
{
    if s.len() > 0 {
        lemma_weight_block(s.drop_last());
        assert(block_parsers(s).drop_last() =~= block_parsers(s.drop_last()));
    }
}

proof fn lemma_weight_choice(s: Seq<ChoiceCase>)
    ensures
        weights(choice_parsers(s)) == weight_choice(s),
    decreases s.len(),
{
    if s.len() > 0 {
        lemma_weight_choice(s.drop_last());
        assert(choice_parsers(s).drop_last() =~= choice_parsers(s.drop_last()));
    }
}

/// A node outweighs its children together.
pub proof fn lemma_kids_weight(ast: ParserAst)
    ensures
        weights(kids(ast)) < weight(ast),
{
    match ast {
        ParserAst::SectionsNamed { fields, repeated_tail, .. } => {
            lemma_weight_sections(fields@);
            let head = section_parsers(fields@);
            if repeated_tail is Some {
                let tail = *repeated_tail->0.parser;
                assert(kids(ast) =~= head.push(tail));
                assert(head.push(tail).drop_last() =~= head);
                assert(weights(kids(ast)) == weights(head) + weight(tail));
            } else {
                assert(kids(ast) =~= head);
            }
        },
        ParserAst::Block { items, .. } => lemma_weight_block(items@),
        ParserAst::Choice { cases, .. } => lemma_weight_choice(cases@),
        ParserAst::Lines { child, .. }
        | ParserAst::Sections { child, .. }
        | ParserAst::Csv { child, .. }
        | ParserAst::Ws { child, .. }
        | ParserAst::Sep { child, .. }
        | ParserAst::Grid { child, .. }
        | ParserAst::Optional { child, .. }
        | ParserAst::Scan { child, .. }
        | ParserAst::Characters { child, .. }
        | ParserAst::Matrix { child, .. }
        | ParserAst::GridRagged { child, .. } => {
            assert(kids(ast).drop_last() =~= Seq::empty());
            assert(kids(ast).last() == *child);
            assert(weights(kids(ast).drop_last()) == 0);
        },
        _ => {},
    }
}

pub open spec fn pointees(s: Seq<&ParserAst>) -> Seq<ParserAst> {
    Seq::new(s.len(), |i: int| *s[i])
}

proof fn lemma_pointees_push(s: Seq<&ParserAst>, p: &ParserAst)
    ensures
        pointees(s.push(p)) == pointees(s).push(*p),
{
    assert(pointees(s.push(p)) =~= pointees(s).push(*p));
}

proof fn lemma_take_push<A>(s: Seq<A>, i: int)
    requires
        0 <= i < s.len(),
    ensures
        s.take(i + 1) == s.take(i).push(s[i]),
{
    assert(s.take(i + 1) =~= s.take(i).push(s[i]));
}

fn children(ast: &ParserAst) -> (r: Vec<&ParserAst>)
    ensures
        pointees(r@) == kids(*ast),
{
    let mut out: Vec<&ParserAst> = Vec::new();
    match ast {
        ParserAst::Atomic { .. } | ParserAst::OneOf { .. } | ParserAst::Template { .. } => {},
        ParserAst::Lines { child, .. }
        | ParserAst::Sections { child, .. }
        | ParserAst::Csv { child, .. }
        | ParserAst::Ws { child, .. }
        | ParserAst::Sep { child, .. }
        | ParserAst::Grid { child, .. }
        | ParserAst::Optional { child, .. }
        | ParserAst::Scan { child, .. }
        | ParserAst::Characters { child, .. }
        | ParserAst::Matrix { child, .. }
        | ParserAst::GridRagged { child, .. } => {
            out.push(child);
        },
        ParserAst::SectionsNamed { fields, repeated_tail, .. } => {
            let mut i: usize = 0;
            while i < fields.len()
                invariant
                    i <= fields@.len(),
                    pointees(out@) == section_parsers(fields@).take(i as int),
                decreases fields@.len() - i,
            {
                let ghost before = out@;
                out.push(&fields[i].parser);
                proof {
                    lemma_pointees_push(before, &fields@[i as int].parser);
                    lemma_take_push(section_parsers(fields@), i as int);
                }
                i += 1;
            }
            assert(section_parsers(fields@).take(i as int) =~= section_parsers(fields@));
            if let Some(t) = repeated_tail {
                out.push(&t.parser);
            }
        },
        ParserAst::Block { items, .. } => {
            let mut i: usize = 0;
            while i < items.len()
                invariant
                    i <= items@.len(),
                    pointees(out@) == block_parsers(items@).take(i as int),
                decreases items@.len() - i,
            {
                let ghost before = out@;
                let p: &ParserAst = match &items[i] {
                    BlockItem::Positional(p) => p,
                    BlockItem::Named { parser, .. } => parser,
                };
                out.push(p);
                proof {
                    lemma_pointees_push(before, p);
                    lemma_take_push(block_parsers(items@), i as int);
                }
                i += 1;
            }
        },
        ParserAst::Choice { cases, .. } => {
            let mut i: usize = 0;
            while i < cases.len()
                invariant
                    i <= cases@.len(),
                    pointees(out@) == choice_parsers(cases@).take(i as int),
                decreases cases@.len() - i,
            {
                let ghost before = out@;
                out.push(&cases[i].parser);
                proof {
                    lemma_pointees_push(before, &cases@[i as int].parser);
                    lemma_take_push(choice_parsers(cases@), i as int);
                }
                i += 1;
            }
        },
    }
    assert(pointees(out@) =~= kids(*ast));
    out
}

fn constructor_keyword(ast: &ParserAst) -> (r: Option<Constructor>)
    ensures
        r == constructor_of(*ast),
{
    match ast {
        ParserAst::Atomic { .. } | ParserAst::Template { .. } => None,
        ParserAst::Lines { .. } => Some(Constructor::Lines),
        ParserAst::Sections { .. } | ParserAst::SectionsNamed { .. } => Some(Constructor::Sections),
        ParserAst::Csv { .. } => Some(Constructor::Csv),
        ParserAst::Ws { .. } => Some(Constructor::Ws),
        ParserAst::Sep { .. } => Some(Constructor::Sep),
        ParserAst::Grid { .. } | ParserAst::GridRagged { .. } => Some(Constructor::Grid),
        ParserAst::Block { .. } => Some(Constructor::Block),
        ParserAst::Choice { .. } => Some(Constructor::Choice),
        ParserAst::Optional { .. } => Some(Constructor::Optional),
        ParserAst::Scan { .. } => Some(Constructor::Scan),
        ParserAst::OneOf { .. } => Some(Constructor::OneOf),
        ParserAst::Characters { .. } => Some(Constructor::Chars),
        ParserAst::Matrix { .. } => Some(Constructor::Matrix),
    }
}

// ---------------------------------------------------------------------------
// Everything the walk over a tree comes by
// ---------------------------------------------------------------------------

/// Something of interest to an editor.
#[derive(Clone, Copy, Debug, PartialEq, Eq, Structural)]
pub enum Mark {
    Capture(CaptureAt),
    Literal(Span),
    Atomic(Span, AtomicKind),
    /// A constructor and the offset its call starts at.
    Constructor(u32, Constructor),
}

/// What the node itself contributes, before its children.
pub open spec fn own_marks(ast: ParserAst) -> Seq<Mark> {
    match ast {
        ParserAst::Atomic { kind, span } => seq![Mark::Atomic(span, kind)],
        _ => match constructor_of(ast) {
            Some(c) => seq![Mark::Constructor(ast.spec_span().start, c)],
            None => Seq::empty(),
        },
    }
}

/// Every mark of a tree, parents before children, in source order.
pub open spec fn marks(ast: ParserAst) -> Seq<Mark>
    decreases weight(ast), 0nat,
{
    match ast {
        ParserAst::Template { parts, .. } => part_marks(parts@),
        _ => {
            proof {
                lemma_kids_weight(ast);
            }
            own_marks(ast) + kid_marks(kids(ast))
        },
    }
}

pub open spec fn part_marks(parts: Seq<TemplatePart>) -> Seq<Mark>
    decreases weight_parts(parts), parts.len(),
{
    if parts.len() == 0 {
        Seq::empty()
    } else {
        part_marks(parts.drop_last()) + (match parts.last() {
            TemplatePart::Literal { span, .. } => seq![Mark::Literal(span)],
            TemplatePart::Capture { name_span, parser, span, .. } => seq![
                Mark::Capture(CaptureAt { span, name_span, parser_span: parser.spec_span() }),
            ] + marks(parser),
        })
    }
}

pub open spec fn kid_marks(s: Seq<ParserAst>) -> Seq<Mark>
    decreases weights(s), s.len(),
{
    if s.len() == 0 {
        Seq::empty()
    } else {
        kid_marks(s.drop_last()) + marks(s.last())
    }
}

fn walk(ast: &ParserAst, out: &mut Vec<Mark>)
    ensures
        final(out)@ == old(out)@ + marks(*ast),
    decreases weight(*ast), 0nat,
{
    let ghost start = out@;
    if let ParserAst::Template { parts, .. } = ast {
        let mut i: usize = 0;
        assert(out@ =~= start + part_marks(parts@.take(0)));
        while i < parts.len()
            invariant
                i <= parts@.len(),
                out@ == start + part_marks(parts@.take(i as int)),
                *ast matches ParserAst::Template { parts: p, .. } && p == *parts,
            decreases parts@.len() - i,
        {
            assert(parts@.take(i + 1).drop_last() =~= parts@.take(i as int));
            proof {
                lemma_part_weight(parts@, i as int);
            }
            match &parts[i] {
                TemplatePart::Literal { span, .. } => out.push(Mark::Literal(*span)),
                TemplatePart::Capture { name_span, parser, span, .. } => {
                    out.push(
                        Mark::Capture(
                            CaptureAt {
                                span: *span,
                                name_span: *name_span,
                                parser_span: parser.span(),
                            },
                        ),
                    );
                    walk(parser, out);
                },
            }
            assert(out@ =~= start + part_marks(parts@.take(i + 1)));
            i += 1;
        }
        assert(parts@.take(i as int) =~= parts@);
        return;
    }
    if let ParserAst::Atomic { kind, span } = ast {
        out.push(Mark::Atomic(*span, *kind));
    }
    if let Some(c) = constructor_keyword(ast) {
        out.push(Mark::Constructor(ast.span().start, c));
    }
    assert(out@ =~= start + own_marks(*ast));
    let below = children(ast);
    let ghost ks = kids(*ast);
    let mut i: usize = 0;
    assert(out@ =~= start + own_marks(*ast) + kid_marks(ks.take(0)));
    while i < below.len()
        invariant
            i <= below@.len(),
            pointees(below@) == ks,
            ks == kids(*ast),
            out@ == start + own_marks(*ast) + kid_marks(ks.take(i as int)),
        decreases below@.len() - i,
    {
        assert(ks.take(i + 1).drop_last() =~= ks.take(i as int));
        proof {
            lemma_kids_weight(*ast);
            lemma_weight_at(ks, i as int);
            assert(*below@[i as int] == ks[i as int]);
        }
        walk(below[i], out);
        assert(out@ =~= start + own_marks(*ast) + kid_marks(ks.take(i + 1)));
        i += 1;
    }
    assert(ks.take(i as int) =~= ks);
    assert(out@ =~= start + marks(*ast));
}

proof fn lemma_weight_at(s: Seq<ParserAst>, i: int)
    requires
        0 <= i < s.len(),
    ensures
        weight(s[i]) <= weights(s),
    decreases s.len(),
{
    if i < s.len() - 1 {
        lemma_weight_at(s.drop_last(), i);
    }
}

proof fn lemma_part_weight(s: Seq<TemplatePart>, i: int)
    requires
        0 <= i < s.len(),
    ensures
        s[i] matches TemplatePart::Capture { parser, .. } ==> weight(parser) <= weight_parts(s),
    decreases s.len(),
{
    if i < s.len() - 1 {
        lemma_part_weight(s.drop_last(), i);
    }
}

/// The captures among some marks.
pub open spec fn captures_in(m: Seq<Mark>) -> Seq<CaptureAt>
    decreases m.len(),
{
    if m.len() == 0 {
        Seq::empty()
    } else {
        match m.last() {
            Mark::Capture(c) => captures_in(m.drop_last()).push(c),
            _ => captures_in(m.drop_last()),
        }
    }
}

/// The literal runs among some marks.
pub open spec fn literals_in(m: Seq<Mark>) -> Seq<Span>
    decreases m.len(),
{
    if m.len() == 0 {
        Seq::empty()
    } else {
        match m.last() {
            Mark::Literal(s) => literals_in(m.drop_last()).push(s),
            _ => literals_in(m.drop_last()),
        }
    }
}

/// The atomic parsers among some marks.
pub open spec fn atomics_in(m: Seq<Mark>) -> Seq<(Span, AtomicKind)>
    decreases m.len(),
{
    if m.len() == 0 {
        Seq::empty()
    } else {
        match m.last() {
            Mark::Atomic(s, k) => atomics_in(m.drop_last()).push((s, k)),
            _ => atomics_in(m.drop_last()),
        }
    }
}

/// The constructors among some marks, each with the span of its keyword.
pub open spec fn constructors_in(m: Seq<Mark>) -> Seq<(Span, Seq<char>)>
    decreases m.len(),
{
    if m.len() == 0 {
        Seq::empty()
    } else {
        match m.last() {
            Mark::Constructor(start, c) => constructors_in(m.drop_last()).push(
                (
                    Span { start, end: (start + c.spec_keyword().len()) as u32 },
                    c.spec_keyword(),
                ),
            ),
            _ => constructors_in(m.drop_last()),
        }
    }
}

/// Whether every constructor keyword ends within the offsets a file can have.
pub open spec fn keywords_fit(m: Seq<Mark>) -> bool {
    forall|i: int|
        0 <= i < m.len() ==> ((#[trigger] m[i]) matches Mark::Constructor(start, c) ==> start
            + c.spec_keyword().len() <= u32::MAX)
}

/// The last of `caps` that covers `offset`.
pub open spec fn last_covering(caps: Seq<CaptureAt>, offset: u32) -> Option<CaptureAt>
    decreases caps.len(),
{
    if caps.len() == 0 {
        None
    } else if caps.last().span.covers(offset) {
        Some(caps.last())
    } else {
        last_covering(caps.drop_last(), offset)
    }
}

// ---------------------------------------------------------------------------
// The cursor's mode
// ---------------------------------------------------------------------------

/// The mode after walking a tree, starting from `mode`.
pub open spec fn mode_in(ast: ParserAst, offset: u32, mode: ParserMode) -> ParserMode
    decreases weight(ast), 0nat,
{
    match ast {
        ParserAst::Template { parts, span } => if span.covers(offset) {
            mode_in_parts(parts@, offset)
        } else {
            mode
        },
        _ => {
            proof {
                lemma_kids_weight(ast);
            }
            mode_in_kids(kids(ast), offset, mode)
        },
    }
}

/// The mode after walking the parts of a template the cursor is in.
pub open spec fn mode_in_parts(parts: Seq<TemplatePart>, offset: u32) -> ParserMode
    decreases weight_parts(parts), parts.len(),
{
    if parts.len() == 0 {
        ParserMode::Template
    } else {
        match parts.last() {
            TemplatePart::Capture { parser, span, .. } => if span.covers(offset) {
                mode_in(
                    parser,
                    offset,
                    if parser.spec_span().covers(offset) {
                        ParserMode::AtomicName
                    } else {
                        ParserMode::Capture
                    },
                )
            } else {
                mode_in_parts(parts.drop_last(), offset)
            },
            _ => mode_in_parts(parts.drop_last(), offset),
        }
    }
}

pub open spec fn mode_in_kids(s: Seq<ParserAst>, offset: u32, mode: ParserMode) -> ParserMode
    decreases weights(s), s.len(),
{
    if s.len() == 0 {
        mode
    } else {
        mode_in(s.last(), offset, mode_in_kids(s.drop_last(), offset, mode))
    }
}

fn walk_mode(ast: &ParserAst, offset: u32, mode: ParserMode) -> (r: ParserMode)
    ensures
        r == mode_in(*ast, offset, mode),
    decreases weight(*ast), 0nat,
{
    let mut mode = mode;
    let ghost given = mode;
    if let ParserAst::Template { parts, span } = ast {
        if span_contains(*span, offset) {
            mode = ParserMode::Template;
            let mut i: usize = 0;
            assert(parts@.take(0) =~= Seq::empty());
            while i < parts.len()
                invariant
                    i <= parts@.len(),
                    mode == mode_in_parts(parts@.take(i as int), offset),
                    *ast matches ParserAst::Template { parts: p, .. } && p == *parts,
                decreases parts@.len() - i,
            {
                assert(parts@.take(i + 1).drop_last() =~= parts@.take(i as int));
                proof {
                    lemma_part_weight(parts@, i as int);
                }
                if let TemplatePart::Capture { parser, span, .. } = &parts[i] {
                    if span_contains(*span, offset) {
                        mode = ParserMode::Capture;
                        if span_contains(parser.span(), offset) {
                            mode = ParserMode::AtomicName;
                        }
                        mode = walk_mode(parser, offset, mode);
                    }
                }
                i += 1;
            }
            assert(parts@.take(i as int) =~= parts@);
        }
        return mode;
    }
    let below = children(ast);
    let ghost ks = kids(*ast);
    let mut i: usize = 0;
    assert(ks.take(0) =~= Seq::empty());
    while i < below.len()
        invariant
            i <= below@.len(),
            pointees(below@) == ks,
            ks == kids(*ast),
            mode == mode_in_kids(ks.take(i as int), offset, given),
        decreases below@.len() - i,
    {
        assert(ks.take(i + 1).drop_last() =~= ks.take(i as int));
        proof {
            lemma_kids_weight(*ast);
            lemma_weight_at(ks, i as int);
            assert(*below@[i as int] == ks[i as int]);
        }
        mode = walk_mode(below[i], offset, mode);
        i += 1;
    }
    assert(ks.take(i as int) =~= ks);
    mode
}

/// Whether entry `i` of `types` is the one that answers for `offset`: it covers
/// the offset, no covering entry is narrower, and no earlier one is as narrow.
pub open spec fn innermost(types: Seq<(Span, Type)>, offset: u32, i: int) -> bool {
    &&& 0 <= i < types.len()
    &&& types[i].0.covers(offset)
    &&& forall|j: int|
        0 <= j < types.len() && (#[trigger] types[j]).0.covers(offset) ==> {
            &&& types[i].0.width() <= types[j].0.width()
            &&& j < i ==> types[i].0.width() < types[j].0.width()
        }
}

impl ParserIndex {
    /// Whether `offset` falls inside this parser expression.
    pub fn contains(&self, offset: u32) -> (r: bool)
        ensures
            r == self.expr_range.covers(offset),
    {
        span_contains(self.expr_range, offset)
    }

    /// The type of the innermost parser node containing `offset`. Of nodes with
    /// the same extent the earliest recorded one answers, which is the deepest.
    pub fn type_at(&self, offset: u32) -> (r: Option<Type>)
        ensures
            match r {
                Some(t) => exists|i: int| #[trigger]
                    innermost(self.node_types@, offset, i) && t == self.node_types@[i].1,
                None => forall|i: int|
                    0 <= i < self.node_types@.len() ==> !(#[trigger] self.node_types@[i]).0.covers(
                        offset,
                    ),
            },
    {
        let mut best: Option<usize> = None;
        let mut i: usize = 0;
        let ghost types = self.node_types@;
        while i < self.node_types.len()
            invariant
                i <= types.len(),
                types == self.node_types@,
                match best {
                    Some(b) => b < i && innermost(types.take(i as int), offset, b as int),
                    None => forall|j: int| 0 <= j < i ==> !(#[trigger] types[j]).0.covers(offset),
                },
            decreases types.len() - i,
        {
            let span = self.node_types[i].0;
            let ghost seen = types.take(i as int);
            let ghost next = types.take(i + 1);
            assert forall|j: int| 0 <= j < i implies #[trigger] next[j] == types[j] by {}
            assert forall|j: int| 0 <= j < i implies #[trigger] seen[j] == types[j] by {}
            assert(next[i as int] == types[i as int]);
            if span_contains(span, offset) {
                let width: u32 = if span.start <= span.end {
                    span.end - span.start
                } else {
                    0
                };
                let better: bool = match best {
                    Some(b) => {
                        let held = self.node_types[b].0;
                        let w: u32 = if held.start <= held.end {
                            held.end - held.start
                        } else {
                            0
                        };
                        width < w
                    },
                    None => true,
                };
                if better {
                    best = Some(i);
                }
            }
            proof {
                if let Some(b) = best {
                    assert forall|j: int| 0 <= j < next.len() && (#[trigger] next[j]).0.covers(
                        offset,
                    ) implies next[b as int].0.width() <= next[j].0.width() && (j < b
                        ==> next[b as int].0.width() < next[j].0.width()) by {
                        if j < i {
                            assert(seen[j] == next[j]);
                        }
                    }
                }
            }
            i += 1;
        }
        assert(types.take(i as int) =~= types);
        match best {
            Some(b) => {
                assert(innermost(types, offset, b as int));
                Some(self.node_types[b].1.dup())
            },
            None => None,
        }
    }

    /// The type of the first node whose span is exactly `span`.
    pub fn type_of_span(&self, span: Span) -> (r: Option<Type>)
        ensures
            match r {
                Some(t) => exists|i: int|
                    {
                        &&& 0 <= i < self.node_types@.len()
                        &&& (#[trigger] self.node_types@[i]).0 == span
                        &&& t == self.node_types@[i].1
                        &&& forall|j: int| 0 <= j < i ==> self.node_types@[j].0 != span
                    },
                None => forall|i: int|
                    0 <= i < self.node_types@.len() ==> (#[trigger] self.node_types@[i]).0 != span,
            },
    {
        let mut i: usize = 0;
        while i < self.node_types.len()
            invariant
                i <= self.node_types@.len(),
                forall|j: int| 0 <= j < i ==> (#[trigger] self.node_types@[j]).0 != span,
            decreases self.node_types@.len() - i,
        {
            if self.node_types[i].0 == span {
                return Some(self.node_types[i].1.dup());
            }
            i += 1;
        }
        None
    }

    /// Which part of the parser sublanguage `offset` is in.
    pub fn mode_at(&self, offset: u32) -> (r: ParserMode)
        ensures
            r == spec_mode_at(*self, offset),
    {
        if !self.contains(offset) {
            return ParserMode::Outside;
        }
        walk_mode(&self.ast, offset, ParserMode::Expression)
    }

    fn marks(&self) -> (r: Vec<Mark>)
        ensures
            r@ == marks(self.ast),
    {
        let mut out: Vec<Mark> = Vec::new();
        walk(&self.ast, &mut out);
        assert(out@ =~= marks(self.ast));
        out
    }

    /// The capture containing `offset`: the innermost one, which the walk comes
    /// by after those around it.
    pub fn capture_at(&self, offset: u32) -> (r: Option<CaptureAt>)
        ensures
            r == last_covering(captures_in(marks(self.ast)), offset),
    {
        let caps = self.captures();
        let mut i: usize = caps.len();
        assert(caps@.take(i as int) =~= caps@);
        while i > 0
            invariant
                i <= caps@.len(),
                caps@ == captures_in(marks(self.ast)),
                last_covering(caps@.take(i as int), offset) == last_covering(caps@, offset),
            decreases i,
        {
            i -= 1;
            assert(caps@.take(i + 1).drop_last() =~= caps@.take(i as int));
            if span_contains(caps[i].span, offset) {
                return Some(caps[i]);
            }
        }
        None
    }

    /// Every capture in this parser expression, outermost first.
    pub fn captures(&self) -> (r: Vec<CaptureAt>)
        ensures
            r@ == captures_in(marks(self.ast)),
    {
        let m = self.marks();
        let mut out: Vec<CaptureAt> = Vec::new();
        let mut i: usize = 0;
        while i < m.len()
            invariant
                i <= m@.len(),
                out@ == captures_in(m@.take(i as int)),
            decreases m@.len() - i,
        {
            assert(m@.take(i + 1).drop_last() =~= m@.take(i as int));
            if let Mark::Capture(c) = m[i] {
                out.push(c);
            }
            i += 1;
        }
        assert(m@.take(i as int) =~= m@);
        out
    }

    /// Every literal run in every template, with the source it was decoded from.
    pub fn template_literals(&self) -> (r: Vec<Span>)
        ensures
            r@ == literals_in(marks(self.ast)),
    {
        let m = self.marks();
        let mut out: Vec<Span> = Vec::new();
        let mut i: usize = 0;
        while i < m.len()
            invariant
                i <= m@.len(),
                out@ == literals_in(m@.take(i as int)),
            decreases m@.len() - i,
        {
            assert(m@.take(i + 1).drop_last() =~= m@.take(i as int));
            if let Mark::Literal(s) = m[i] {
                out.push(s);
            }
            i += 1;
        }
        assert(m@.take(i as int) =~= m@);
        out
    }

    /// Every constructor node's name span and keyword, outermost first.
    pub fn constructors(&self) -> (r: Vec<(Span, &'static str)>)
        requires
            keywords_fit(marks(self.ast)),
        ensures
            r@.map_values(|p: (Span, &'static str)| (p.0, p.1@)) == constructors_in(
                marks(self.ast),
            ),
    {
        let m = self.marks();
        let mut out: Vec<(Span, &'static str)> = Vec::new();
        let mut i: usize = 0;
        assert(out@.map_values(|p: (Span, &'static str)| (p.0, p.1@)) =~= constructors_in(
            m@.take(0),
        ));
        while i < m.len()
            invariant
                i <= m@.len(),
                keywords_fit(m@),
                out@.map_values(|p: (Span, &'static str)| (p.0, p.1@)) == constructors_in(
                    m@.take(i as int),
                ),
            decreases m@.len() - i,
        {
            assert(m@.take(i + 1).drop_last() =~= m@.take(i as int));
            let mark = m[i];
            assert(m@[i as int] == mark);
            if let Mark::Constructor(start, c) = mark {
                out.push((Span::new(start, start + c.keyword_len()), c.keyword()));
            }
            assert(out@.map_values(|p: (Span, &'static str)| (p.0, p.1@)) =~= constructors_in(
                m@.take(i + 1),
            ));
            i += 1;
        }
        assert(m@.take(i as int) =~= m@);
        out
    }

    /// Every atomic parser's span and kind, anywhere in the expression.
    pub fn atomics(&self) -> (r: Vec<(Span, AtomicKind)>)
        ensures
            r@ == atomics_in(marks(self.ast)),
    {
        let m = self.marks();
        let mut out: Vec<(Span, AtomicKind)> = Vec::new();
        let mut i: usize = 0;
        while i < m.len()
            invariant
                i <= m@.len(),
                out@ == atomics_in(m@.take(i as int)),
            decreases m@.len() - i,
        {
            assert(m@.take(i + 1).drop_last() =~= m@.take(i as int));
            if let Mark::Atomic(s, k) = m[i] {
                out.push((s, k));
            }
            i += 1;
        }
        assert(m@.take(i as int) =~= m@);
        out
    }
}

/// The mode of `offset` with respect to one parser expression.
pub open spec fn spec_mode_at(index: ParserIndex, offset: u32) -> ParserMode {
    if index.expr_range.covers(offset) {
        mode_in(index.ast, offset, ParserMode::Expression)
    } else {
        ParserMode::Outside
    }
}

// ---------------------------------------------------------------------------
// Laws
// ---------------------------------------------------------------------------

/// Whether some capture among the marks covers `offset`.
pub open spec fn captured(m: Seq<Mark>, offset: u32) -> bool {
    exists|i: int|
        0 <= i < m.len() && ((#[trigger] m[i]) matches Mark::Capture(c) && c.span.covers(offset))
}

proof fn lemma_captured_left(a: Seq<Mark>, b: Seq<Mark>, offset: u32)
    requires
        captured(a, offset),
    ensures
        captured(a + b, offset),
{
    let i = choose|i: int|
        0 <= i < a.len() && ((#[trigger] a[i]) matches Mark::Capture(c) && c.span.covers(offset));
    assert((a + b)[i] == a[i]);
}

proof fn lemma_captured_right(a: Seq<Mark>, b: Seq<Mark>, offset: u32)
    requires
        captured(b, offset),
    ensures
        captured(a + b, offset),
{
    let i = choose|i: int|
        0 <= i < b.len() && ((#[trigger] b[i]) matches Mark::Capture(c) && c.span.covers(offset));
    assert((a + b)[a.len() + i] == b[i]);
}

/// Being in a capture is what the two innermost modes say.
pub open spec fn in_capture(mode: ParserMode) -> bool {
    mode == ParserMode::Capture || mode == ParserMode::AtomicName
}

proof fn lemma_mode_captured(ast: ParserAst, offset: u32, mode: ParserMode)
    requires
        in_capture(mode_in(ast, offset, mode)),
    ensures
        in_capture(mode) || captured(marks(ast), offset),
    decreases weight(ast), 0nat,
{
    match ast {
        ParserAst::Template { parts, span } => {
            if span.covers(offset) {
                lemma_parts_captured(parts@, offset);
            }
        },
        _ => {
            lemma_kids_weight(ast);
            lemma_kids_captured(kids(ast), offset, mode);
            if captured(kid_marks(kids(ast)), offset) {
                lemma_captured_right(own_marks(ast), kid_marks(kids(ast)), offset);
            }
        },
    }
}

proof fn lemma_parts_captured(parts: Seq<TemplatePart>, offset: u32)
    requires
        in_capture(mode_in_parts(parts, offset)),
    ensures
        captured(part_marks(parts), offset),
    decreases weight_parts(parts), parts.len(),
{
    if parts.len() > 0 {
        let front = part_marks(parts.drop_last());
        match parts.last() {
            TemplatePart::Capture { parser, span, name_span, .. } => {
                let own = seq![
                    Mark::Capture(CaptureAt { span, name_span, parser_span: parser.spec_span() }),
                ];
                if span.covers(offset) {
                    assert(own[0] is Capture);
                    assert(captured(own, offset));
                    lemma_captured_left(own, marks(parser), offset);
                    lemma_captured_right(front, own + marks(parser), offset);
                } else {
                    lemma_parts_captured(parts.drop_last(), offset);
                    lemma_captured_left(front, own + marks(parser), offset);
                }
            },
            TemplatePart::Literal { span, .. } => {
                lemma_parts_captured(parts.drop_last(), offset);
                lemma_captured_left(front, seq![Mark::Literal(span)], offset);
            },
        }
    }
}

proof fn lemma_kids_captured(s: Seq<ParserAst>, offset: u32, mode: ParserMode)
    requires
        in_capture(mode_in_kids(s, offset, mode)),
    ensures
        in_capture(mode) || captured(kid_marks(s), offset),
    decreases weights(s), s.len(),
{
    if s.len() > 0 {
        lemma_mode_captured(s.last(), offset, mode_in_kids(s.drop_last(), offset, mode));
        if captured(marks(s.last()), offset) {
            lemma_captured_right(kid_marks(s.drop_last()), marks(s.last()), offset);
        } else {
            lemma_kids_captured(s.drop_last(), offset, mode);
            if captured(kid_marks(s.drop_last()), offset) {
                lemma_captured_left(kid_marks(s.drop_last()), marks(s.last()), offset);
            }
        }
    }
}

proof fn lemma_captured_is_covering(m: Seq<Mark>, offset: u32)
    requires
        captured(m, offset),
    ensures
        last_covering(captures_in(m), offset) is Some,
    decreases m.len(),
{
    let i = choose|i: int|
        0 <= i < m.len() && ((#[trigger] m[i]) matches Mark::Capture(c) && c.span.covers(offset));
    match m.last() {
        Mark::Capture(c) => {
            let caps = captures_in(m.drop_last());
            assert(caps.push(c).drop_last() =~= caps);
            if !c.span.covers(offset) {
                assert(m.drop_last()[i] == m[i]);
                lemma_captured_is_covering(m.drop_last(), offset);
            }
        },
        _ => {
            assert(m.drop_last()[i] == m[i]);
            lemma_captured_is_covering(m.drop_last(), offset);
        },
    }
}

/// A cursor whose mode is inside a capture is inside one of the expression's
/// captures: asking for the mode and asking for the capture never disagree.
pub proof fn law_capture_mode_has_a_capture(index: ParserIndex, offset: u32)
    requires
        in_capture(spec_mode_at(index, offset)),
    ensures
        last_covering(captures_in(marks(index.ast)), offset) is Some,
{
    lemma_mode_captured(index.ast, offset, ParserMode::Expression);
    lemma_captured_is_covering(marks(index.ast), offset);
}

/// The mode is `Outside` exactly where the expression does not reach.
pub proof fn law_outside_is_outside(index: ParserIndex, offset: u32)
    ensures
        spec_mode_at(index, offset) == ParserMode::Outside <==> !index.expr_range.covers(offset),
{
    lemma_mode_inside(index.ast, offset, ParserMode::Expression);
}

proof fn lemma_mode_inside(ast: ParserAst, offset: u32, mode: ParserMode)
    requires
        mode != ParserMode::Outside,
    ensures
        mode_in(ast, offset, mode) != ParserMode::Outside,
    decreases weight(ast), 0nat,
{
    match ast {
        ParserAst::Template { parts, span } => lemma_mode_inside_parts(parts@, offset),
        _ => {
            lemma_kids_weight(ast);
            lemma_mode_inside_kids(kids(ast), offset, mode);
        },
    }
}

proof fn lemma_mode_inside_parts(parts: Seq<TemplatePart>, offset: u32)
    ensures
        mode_in_parts(parts, offset) != ParserMode::Outside,
    decreases weight_parts(parts), parts.len(),
{
    if parts.len() > 0 {
        lemma_mode_inside_parts(parts.drop_last(), offset);
        if let TemplatePart::Capture { parser, .. } = parts.last() {
            lemma_mode_inside(parser, offset, ParserMode::AtomicName);
            lemma_mode_inside(parser, offset, ParserMode::Capture);
        }
    }
}

proof fn lemma_mode_inside_kids(s: Seq<ParserAst>, offset: u32, mode: ParserMode)
    requires
        mode != ParserMode::Outside,
    ensures
        mode_in_kids(s, offset, mode) != ParserMode::Outside,
    decreases weights(s), s.len(),
{
    if s.len() > 0 {
        lemma_mode_inside_kids(s.drop_last(), offset, mode);
        lemma_mode_inside(s.last(), offset, mode_in_kids(s.drop_last(), offset, mode));
    }
}

} // verus!
