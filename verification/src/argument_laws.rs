//! What the arguments of a parser constructor are taken for.
use vstd::prelude::*;

use crate::parser_ast::{
    law_keywords_name_constructors, AtomicKind, BlockItem, ChoiceCase, Constructor, ParserAst,
    SectionItem,
};
use crate::parser_copy::{ast_view, block_kids, case_kids, section_kids};
use crate::parser_index::{
    block_parsers, choice_parsers, constructor_of, kids, section_parsers,
};
use crate::parser_lower::{
    closed, convert_spec, no_args, take_arg, take_args, template_spec, ArgNode, ArgState,
    CallArgView, CallNode, Converted, ParserNode, StepView, TemplateNode, ValueNode,
};
use crate::source::{DiagCode, DiagView, FileId, FileSpan, Span};

verus! {

/// Whether a text is one decimal digit or more.
pub open spec fn all_digits(s: Seq<char>) -> bool {
    s.len() > 0 && forall|i: int| 0 <= i < s.len() ==> '0' <= #[trigger] s[i] <= '9'
}

/// Whether a text is a whole number as it is written, with or without a leading
/// `-`.
pub open spec fn decimal_text(raw: Seq<char>) -> bool {
    all_digits(raw) || (raw.len() > 0 && raw[0] == '-' && all_digits(raw.skip(1)))
}

/// A whole number is taken as that number, whatever the constructor is, and
/// nothing is reported.
pub proof fn law_whole_numbers_are_taken(
    st: ArgState,
    file: FileId,
    ctor: Option<Constructor>,
    raw: String,
    n: i64,
    text: Option<String>,
    range: Span,
)
    requires
        decimal_text(raw@),
    ensures
        ({
            let arg = ArgNode::Literal { range, raw, number: Some(n), text };
            let out = take_arg(st, file, ctor, arg);
            &&& out.args == st.args.push(CallArgView::Int(n))
            &&& out.converted == st.converted
            &&& out.diags == st.diags
        }),
{
    if all_digits(raw@) {
        assert('0' <= raw@[0] <= '9');
    } else {
        assert('0' <= raw@.skip(1)[0] <= '9');
    }
}

/// A literal that opens with a quote is taken as its text, whatever number could
/// be read in it, and nothing is reported.
pub proof fn law_texts_are_taken(
    st: ArgState,
    file: FileId,
    ctor: Option<Constructor>,
    raw: String,
    number: Option<i64>,
    t: String,
    range: Span,
)
    requires
        raw@.len() > 0,
        raw@[0] == '"',
    ensures
        ({
            let arg = ArgNode::Literal { range, raw, number, text: Some(t) };
            let out = take_arg(st, file, ctor, arg);
            &&& out.args == st.args.push(CallArgView::Text(t@))
            &&& out.converted == st.converted
            &&& out.diags == st.diags
        }),
{
}

/// A literal that is neither a text nor a number that has a value is refused,
/// with one report that stands over it, and no argument is made of it.
pub proof fn law_other_literals_are_refused(
    st: ArgState,
    file: FileId,
    ctor: Option<Constructor>,
    raw: String,
    range: Span,
)
    ensures
        ({
            let arg = ArgNode::Literal { range, raw, number: None, text: None };
            let out = take_arg(st, file, ctor, arg);
            &&& out.args == st.args
            &&& !out.converted
            &&& out.diags.len() == st.diags.len() + 1
            &&& out.diags.drop_last() == st.diags
            &&& out.diags.last().code == DiagCode::InvalidConstructorArgument
            &&& out.diags.last().primary == (FileSpan { file, span: range })
        }),
{
    let arg = ArgNode::Literal { range, raw, number: None, text: None };
    assert(take_arg(st, file, ctor, arg).diags.drop_last() =~= st.diags);
}

/// The word `ragged` is a flag of `grid` and of nothing else.
pub proof fn law_ragged_is_a_flag_of_grid(
    st: ArgState,
    file: FileId,
    word: String,
    names_parser: bool,
    c: Converted,
    range: Span,
)
    requires
        word@ == "ragged"@,
    ensures
        ({
            let arg = ArgNode::Expr { range, text: Some(word), names_parser, converted: c };
            let out = take_arg(st, file, Some(Constructor::Grid), arg);
            &&& out.args == st.args.push(CallArgView::Flag("ragged"@))
            &&& out.converted == st.converted
            &&& out.diags == st.diags
        }),
{
}

/// `fill:` of a `grid` and `skip:` of a `chars` take a word or a literal as it
/// stands, and nothing is reported.
pub proof fn law_keywords_take_values(
    st: ArgState,
    file: FileId,
    ctor: Constructor,
    name: String,
    given: String,
    v: ValueNode,
    range: Span,
)
    requires
        (ctor == Constructor::Grid && name@ == "fill"@) || (ctor == Constructor::Chars && name@
            == "skip"@),
        v.text == Some(given),
    ensures
        ({
            let quoted = ArgNode::Named {
                range,
                name: Some(name),
                literal: Some(given),
                value: None,
            };
            let bare = ArgNode::Named { range, name: Some(name), literal: None, value: Some(v) };
            let want = ArgState {
                args: st.args.push(CallArgView::Keyword(name@, given@)),
                ..st
            };
            &&& take_arg(st, file, Some(ctor), quoted) == want
            &&& take_arg(st, file, Some(ctor), bare) == want
        }),
{
}

/// A literal under any other name is refused, and reported over the argument.
pub proof fn law_other_names_take_no_literal(
    st: ArgState,
    file: FileId,
    ctor: Constructor,
    name: String,
    given: String,
    value: Option<ValueNode>,
    range: Span,
)
    requires
        !(ctor == Constructor::Grid && name@ == "fill"@),
        !(ctor == Constructor::Chars && name@ == "skip"@),
    ensures
        ({
            let arg = ArgNode::Named { range, name: Some(name), literal: Some(given), value };
            let out = take_arg(st, file, Some(ctor), arg);
            &&& out.args == st.args
            &&& !out.converted
            &&& out.diags.len() == st.diags.len() + 1
            &&& out.diags.last().code == DiagCode::InvalidConstructorArgument
            &&& out.diags.last().primary == (FileSpan { file, span: range })
        }),
{
}

// ---------------------------------------------------------------------------
// Lists of arguments
// ---------------------------------------------------------------------------

/// Whether something is written for an argument.
pub open spec fn written(arg: ArgNode) -> bool {
    match arg {
        ArgNode::Expr { .. } => true,
        ArgNode::Named { name, literal, value, .. } => name is Some && (literal is Some || value is Some),
        ArgNode::Literal { .. } => true,
        ArgNode::Other => false,
    }
}

/// Whether an argument can have come of what is written: a parser of the parser
/// there, a word or a text of the text there, under the name there.
pub open spec fn came_of(a: CallArgView, arg: ArgNode) -> bool {
    match arg {
        ArgNode::Expr { text, converted, .. } => match a {
            CallArgView::Parser(p) => converted.ast == Some(p),
            CallArgView::Flag(w) => text is Some && text->0@ == w,
            _ => false,
        },
        ArgNode::Named { name, literal, value, .. } => match a {
            CallArgView::Named(n, p) => name is Some && name->0@ == n && value is Some && (
            value->0).converted.ast == Some(p),
            CallArgView::Keyword(n, t) => name is Some && name->0@ == n && ((literal is Some
                && literal->0@ == t) || (value is Some && (value->0).text is Some && (
            value->0).text->0@ == t)),
            CallArgView::Tail(_) => literal is None,
            _ => false,
        },
        ArgNode::Literal { number, text, .. } => match a {
            CallArgView::Int(n) => number == Some(n),
            CallArgView::Text(t) => text is Some && text->0@ == t,
            _ => false,
        },
        ArgNode::Other => false,
    }
}

/// A call whose arguments all convert has one argument for each that is written,
/// in the order of the source, and each comes of the one in its place.
pub proof fn law_arguments_keep_their_places(
    file: FileId,
    ctor: Option<Constructor>,
    args: Seq<ArgNode>,
    diags: Seq<DiagView>,
)
    requires
        forall|i: int| 0 <= i < args.len() ==> written(#[trigger] args[i]),
        take_args(no_args(diags), file, ctor, args).converted,
    ensures
        take_args(no_args(diags), file, ctor, args).args.len() == args.len(),
        forall|i: int|
            0 <= i < args.len() ==> came_of(
                #[trigger] take_args(no_args(diags), file, ctor, args).args[i],
                args[i],
            ),
    decreases args.len(),
{
    if args.len() > 0 {
        let st = take_args(no_args(diags), file, ctor, args.drop_last());
        let out = take_arg(st, file, ctor, args.last());
        assert(written(args[args.len() - 1]));
        assert forall|i: int| 0 <= i < args.len() - 1 implies written(
            #[trigger] args.drop_last()[i],
        ) by {
            assert(written(args[i]));
        }
        law_arguments_keep_their_places(file, ctor, args.drop_last(), diags);
        assert(out.args.len() == st.args.len() + 1);
        assert(out.args.drop_last() =~= st.args);
        assert forall|i: int| 0 <= i < args.len() implies came_of(
            #[trigger] out.args[i],
            args[i],
        ) by {
            if i < args.len() - 1 {
                assert(out.args[i] == out.args.drop_last()[i]);
                assert(args[i] == args.drop_last()[i]);
            }
        }
    }
}

/// One argument that does not convert decides for the whole call.
pub proof fn law_one_refusal_decides(
    st: ArgState,
    file: FileId,
    ctor: Option<Constructor>,
    before: Seq<ArgNode>,
    after: Seq<ArgNode>,
)
    requires
        !take_args(st, file, ctor, before).converted,
    ensures
        !take_args(st, file, ctor, before + after).converted,
    decreases after.len(),
{
    if after.len() == 0 {
        assert(before + after =~= before);
    } else {
        let all = before + after;
        law_one_refusal_decides(st, file, ctor, before, after.drop_last());
        assert(all.drop_last() =~= before + after.drop_last());
    }
}

/// A closed template that scans has the parts the scan found, and one that does
/// not has none and one report inside its range.
pub proof fn law_templates_have_their_parts(file: FileId, t: TemplateNode, diags: Seq<DiagView>)
    requires
        closed(t.text@),
        t.range.start <= t.range.end,
    ensures
        ({
            let (parts, after) = template_spec(file, Some(t), diags);
            match t.scanned {
                Ok(found) => parts == found@ && after == diags,
                Err(e) => {
                    &&& parts.len() == 0
                    &&& after.len() == diags.len() + 1
                    &&& after.last().code == e.code
                    &&& after.last().message == e.message@
                    &&& after.last().primary.file == file
                    &&& after.last().primary.span.start <= after.last().primary.span.end <= t.range.end
                    &&& after.last().primary.span.start == t.range.start + 1 + e.offset || t.range.end
                        <= t.range.start + 1 + e.offset
                },
            }
        }),
{
}

// ---------------------------------------------------------------------------
// Parser trees
// ---------------------------------------------------------------------------

proof fn lemma_section_kids(s: Seq<SectionItem>)
    ensures
        section_kids(s) == section_parsers(s).map_values(|p: ParserAst| ast_view(p)),
    decreases s.len(),
{
    if s.len() > 0 {
        lemma_section_kids(s.drop_last());
    }
    assert(section_kids(s) =~= section_parsers(s).map_values(|p: ParserAst| ast_view(p)));
}

proof fn lemma_block_kids(s: Seq<BlockItem>)
    ensures
        block_kids(s) == block_parsers(s).map_values(|p: ParserAst| ast_view(p)),
    decreases s.len(),
{
    if s.len() > 0 {
        lemma_block_kids(s.drop_last());
    }
    assert(block_kids(s) =~= block_parsers(s).map_values(|p: ParserAst| ast_view(p)));
}

proof fn lemma_case_kids(s: Seq<ChoiceCase>)
    ensures
        case_kids(s) == choice_parsers(s).map_values(|p: ParserAst| ast_view(p)),
    decreases s.len(),
{
    if s.len() > 0 {
        lemma_case_kids(s.drop_last());
    }
    assert(case_kids(s) =~= choice_parsers(s).map_values(|p: ParserAst| ast_view(p)));
}

/// The parsers that an index descends into are the children of the tree, all of
/// them, in their order; those of a template hang off its captures.
pub proof fn law_indexes_descend_into_every_child(a: ParserAst)
    requires
        !(a is Template),
    ensures
        kids(a).map_values(|p: ParserAst| ast_view(p)) == ast_view(a).kids,
        a.spec_span() == ast_view(a).span,
        constructor_of(a) is None <==> a is Atomic,
{
    match a {
        ParserAst::SectionsNamed { fields, .. } => lemma_section_kids(fields@),
        ParserAst::Block { items, .. } => lemma_block_kids(items@),
        ParserAst::Choice { cases, .. } => lemma_case_kids(cases@),
        _ => {},
    }
    assert(kids(a).map_values(|p: ParserAst| ast_view(p)) =~= ast_view(a).kids);
}

// ---------------------------------------------------------------------------
// Whole expressions
// ---------------------------------------------------------------------------

/// A word that names an atomic parser is that parser, where it stands; any other
/// is refused, with one report over it.
pub proof fn law_atoms_are_taken_by_name(
    file: FileId,
    span: Span,
    word: String,
    kind: Option<AtomicKind>,
    near: Option<String>,
    diags: Seq<DiagView>,
)
    ensures
        ({
            let node = ParserNode::Atom { text: word, kind, near };
            let (step, after) = convert_spec(file, span, node, diags);
            match kind {
                Some(k) => step == StepView::Atomic(k, span) && after == diags,
                None => {
                    &&& step is Rejected
                    &&& after.len() == diags.len() + 1
                    &&& after.last().code == DiagCode::UnknownAtomic
                    &&& after.last().primary == (FileSpan { file, span })
                },
            }
        }),
{
}

/// A call builds the constructor that its name is the keyword of, out of its
/// arguments, where they all convert; a name that is no keyword is refused, over
/// the name where it has a place.
pub proof fn law_calls_build_their_constructor(
    file: FileId,
    span: Span,
    c: CallNode,
    diags: Seq<DiagView>,
    k: Constructor,
)
    ensures
        ({
            let (step, after) = convert_spec(file, span, ParserNode::Call(Some(c)), diags);
            let st = take_args(no_args(diags), file, Some(k), c.args@);
            &&& c.name@ == k.spec_keyword() && st.converted ==> step == StepView::Build(
                k,
                st.args,
                span,
            ) && after == st.diags
            &&& c.name@ == k.spec_keyword() && !st.converted ==> step is Rejected
            &&& (forall|j: Constructor| c.name@ != #[trigger] j.spec_keyword()) ==> {
                &&& step is Rejected
                &&& after.last().code == DiagCode::UnknownConstructor
                &&& c.name_range matches Some(r) ==> after.last().primary == (FileSpan {
                    file,
                    span: r,
                })
            }
        }),
{
    law_keywords_name_constructors(k, c.name@);
    if let Some(j) = Constructor::spec_from_keyword(c.name@) {
        law_keywords_name_constructors(j, c.name@);
    }
}

} // verus!
