//! Conversion of parser expressions.
//!
//! The expression's syntax comes as plain values: what its words mean in the
//! table of parsers, what a template's interior scanned to, and what the parser
//! expressions below it converted to are answered before it is converted itself.
use vstd::prelude::*;
use vstd::utf8::encode_utf8;

use crate::ast::PlanId;
use crate::parser_ast::{is, AtomicKind, Constructor, ParserAst, RepeatedTail, TemplatePart};
use crate::parser_index::ParserIndex;
use crate::source::{
    append_diags, diag_views, did_you_mean, error_at, push_diag, reversed, suggesting, text, text3,
    DiagCode, DiagView, Diagnostic, FileId, FileSpan, Span,
};
use crate::types::Type;

verus! {

/// The result of analyzing a parser expression.
#[derive(Debug)]
pub struct ParserAnalysis {
    /// The compiled plan.
    pub plan: PlanId,
    /// The type the plan produces.
    pub result_type: Type,
}

/// Why a built parser was rejected.
#[derive(Debug)]
pub struct ValidationError {
    pub code: DiagCode,
    pub message: String,
    pub span: Span,
}

/// Why a template's interior could not be scanned.
#[derive(Debug)]
pub struct ScanError {
    /// Where, from the start of the interior.
    pub offset: u32,
    pub code: DiagCode,
    pub message: String,
    /// The word that names no parser, when that is what is wrong.
    pub unknown_name: Option<String>,
    /// The parser named most like it.
    pub near: Option<String>,
}

/// A template's token, and what its interior scanned to.
#[derive(Debug)]
pub struct TemplateNode {
    pub text: String,
    pub range: Span,
    /// The parts, at their places in the file.
    pub scanned: Result<Vec<TemplatePart>, ScanError>,
}

/// What a parser expression below was converted to, and what was reported.
#[derive(Debug)]
pub struct Converted {
    pub ast: Option<ParserAst>,
    pub reports: Vec<Diagnostic>,
}

/// What the `repeated(...)` of a named argument was built to.
#[derive(Debug)]
pub enum TailResult {
    /// Its arguments did not convert.
    Unconverted,
    Built(RepeatedTail),
    Rejected(Vec<ValidationError>),
}

/// The value of a named argument.
#[derive(Debug)]
pub struct ValueNode {
    /// The one word it is made of, if it is.
    pub text: Option<String>,
    /// The constructor it calls, if it does.
    pub constructor: Option<String>,
    pub converted: Converted,
    pub tail_reports: Vec<Diagnostic>,
    pub tail: TailResult,
}

/// An argument of a constructor call.
#[derive(Debug)]
#[allow(inconsistent_fields)]
pub enum ArgNode {
    Expr {
        range: Span,
        /// The one word it is made of, if it is.
        text: Option<String>,
        /// Whether that word names a parser.
        names_parser: bool,
        converted: Converted,
    },
    Named {
        range: Span,
        name: Option<String>,
        /// A literal in the place of the value.
        literal: Option<String>,
        value: Option<ValueNode>,
    },
    Literal {
        range: Span,
        /// The token, without the space around it.
        raw: String,
        /// Its value as a whole number.
        number: Option<i64>,
        /// Its value as a text.
        text: Option<String>,
    },
    Other,
}

/// A constructor call.
#[derive(Debug)]
pub struct CallNode {
    pub name: String,
    pub name_range: Option<Span>,
    /// The parser named most like the constructor.
    pub near: Option<String>,
    pub args: Vec<ArgNode>,
}

/// A parser expression.
#[derive(Debug)]
#[allow(inconsistent_fields)]
pub enum ParserNode {
    Atom {
        text: String,
        /// The atomic parser of that name.
        kind: Option<AtomicKind>,
        /// The parser named most like it.
        near: Option<String>,
    },
    Template(Option<TemplateNode>),
    Call(Option<CallNode>),
    Unknown,
}

/// An argument a constructor is built with.
#[derive(Debug)]
#[allow(inconsistent_fields)]
pub enum CallArg {
    Parser(ParserAst),
    Named { name: String, parser: ParserAst },
    Keyword { name: String, value: String },
    Flag(String),
    Text(String),
    Int(i64),
    Tail(RepeatedTail),
}

/// The contents of a [`CallArg`].
pub ghost enum CallArgView {
    Parser(ParserAst),
    Named(Seq<char>, ParserAst),
    Keyword(Seq<char>, Seq<char>),
    Flag(Seq<char>),
    Text(Seq<char>),
    Int(i64),
    Tail(RepeatedTail),
}

impl View for CallArg {
    type V = CallArgView;

    open spec fn view(&self) -> CallArgView {
        match *self {
            CallArg::Parser(p) => CallArgView::Parser(p),
            CallArg::Named { name, parser } => CallArgView::Named(name@, parser),
            CallArg::Keyword { name, value } => CallArgView::Keyword(name@, value@),
            CallArg::Flag(f) => CallArgView::Flag(f@),
            CallArg::Text(t) => CallArgView::Text(t@),
            CallArg::Int(n) => CallArgView::Int(n),
            CallArg::Tail(t) => CallArgView::Tail(t),
        }
    }
}

pub open spec fn arg_views(s: Seq<CallArg>) -> Seq<CallArgView> {
    s.map_values(|a: CallArg| a@)
}

/// What converting an expression comes to.
#[derive(Debug)]
#[allow(inconsistent_fields)]
pub enum ConvertStep {
    /// It is converted, or rejected and reported.
    Done(Option<ParserAst>),
    /// The constructor is still to be built with these arguments.
    Build { constructor: Constructor, args: Vec<CallArg>, range: Span },
}

pub ghost enum StepView {
    Rejected,
    Atomic(AtomicKind, Span),
    Template(Seq<TemplatePart>, Span),
    Converted(ParserAst),
    Build(Constructor, Seq<CallArgView>, Span),
}

impl View for ConvertStep {
    type V = StepView;

    open spec fn view(&self) -> StepView {
        match *self {
            ConvertStep::Done(a) => match a {
                None => StepView::Rejected,
                Some(ast) => match ast {
                    ParserAst::Atomic { kind, span } => StepView::Atomic(kind, span),
                    ParserAst::Template { parts, span } => StepView::Template(parts@, span),
                    _ => StepView::Converted(ast),
                },
            },
            ConvertStep::Build { constructor, args, range } => StepView::Build(
                constructor,
                arg_views(args@),
                range,
            ),
        }
    }
}

// ---------------------------------------------------------------------------
// Reports
// ---------------------------------------------------------------------------

/// Offers the nearest name as a fix, when there is one.
pub open spec fn suggested(d: DiagView, file: FileId, span: Span, near: Option<String>) -> DiagView {
    match near {
        Some(n) => suggesting(d, FileSpan { file, span }, n@, did_you_mean(n@)),
        None => d,
    }
}

pub fn suggest_parser_name(diag: Diagnostic, file: FileId, span: Span, near: &Option<String>) -> (r:
    Diagnostic)
    ensures
        r@ == suggested(diag@, file, span, *near),
{
    match near {
        Some(n) => diag.with_did_you_mean(FileSpan::new(file, span), n),
        None => diag,
    }
}

pub open spec fn error_report(file: FileId, e: ValidationError) -> DiagView {
    error_at(FileSpan { file, span: e.span }, e.code, e.message@)
}

pub open spec fn error_reports(file: FileId, es: Seq<ValidationError>) -> Seq<DiagView> {
    es.map_values(|e: ValidationError| error_report(file, e))
}

/// A rejection as a report.
pub fn validation_error_to_diagnostic(err: &ValidationError, file: FileId) -> (r: Diagnostic)
    ensures
        r@ == error_report(file, *err),
{
    Diagnostic::error(FileSpan::new(file, err.span), err.code, text(&err.message))
}

fn report_errors(file: FileId, errs: &Vec<ValidationError>, diags: &mut Vec<Diagnostic>)
    ensures
        diag_views(final(diags)@) == diag_views(old(diags)@) + error_reports(file, errs@),
{
    let ghost d0 = diag_views(diags@);
    let ghost all = error_reports(file, errs@);
    let mut i: usize = 0;
    assert(d0 + all.take(0) =~= d0);
    while i < errs.len()
        invariant
            i <= errs@.len(),
            all == error_reports(file, errs@),
            diag_views(diags@) == d0 + all.take(i as int),
        decreases errs@.len() - i,
    {
        push_diag(diags, validation_error_to_diagnostic(&errs[i], file));
        assert(d0 + all.take(i + 1) =~= (d0 + all.take(i as int)).push(all[i as int]));
        i += 1;
    }
    assert(all.take(i as int) =~= all);
}

fn report(diags: &mut Vec<Diagnostic>, file: FileId, span: Span, code: DiagCode, message: String)
    ensures
        diag_views(final(diags)@) == diag_views(old(diags)@).push(
            error_at(FileSpan { file, span }, code, message@),
        ),
{
    push_diag(diags, Diagnostic::error(FileSpan::new(file, span), code, message));
}

// ---------------------------------------------------------------------------
// Templates
// ---------------------------------------------------------------------------

/// Whether a template's token is closed, and so has an interior.
pub open spec fn closed(token: Seq<char>) -> bool {
    token.len() >= 2 && token[0] == '`' && token.last() == '`'
}

/// A closed template's interior, and where it starts in the file. One that is
/// not closed has none.
pub fn template_interior(token: &String, start: u32) -> (r: Option<(String, u32)>)
    requires
        start < u32::MAX,
    ensures
        if closed(token@) {
            r matches Some(p) && p.0@ == token@.subrange(1, token@.len() - 1) && p.1 == start + 1
        } else {
            r is None
        },
{
    if !is_closed(token) {
        return None;
    }
    let n: usize = token.as_str().unicode_len();
    Some((text(token.as_str().substring_char(1, n - 1)), start + 1))
}

pub open spec fn least(a: int, b: int) -> int {
    if a < b {
        a
    } else {
        b
    }
}

/// What a scan error underlines: the word that names no parser, or the point.
pub open spec fn scan_extent(range: Span, e: ScanError) -> Span {
    let at = range.start + 1 + e.offset;
    let stop = match e.unknown_name {
        Some(n) => least(at + encode_utf8(n@).len(), range.end as int),
        None => least(at, range.end as int),
    };
    Span { start: least(at, stop) as u32, end: stop as u32 }
}

pub open spec fn scan_report(file: FileId, range: Span, e: ScanError) -> DiagView {
    let extent = scan_extent(range, e);
    suggested(
        error_at(FileSpan { file, span: extent }, e.code, e.message@),
        file,
        extent,
        if e.unknown_name is Some {
            e.near
        } else {
            None
        },
    )
}

fn scan_to_report(file: FileId, range: Span, e: &ScanError) -> (r: Diagnostic)
    ensures
        r@ == scan_report(file, range, *e),
{
    let at: u64 = range.start as u64 + 1 + e.offset as u64;
    let end: u64 = range.end as u64;
    let reach: u64 = match &e.unknown_name {
        Some(n) => {
            let word: &str = n.as_str();
            let len: u64 = word.as_bytes().len() as u64;
            if len < end {
                at + len
            } else {
                end
            }
        },
        None => at,
    };
    let stop: u64 = if reach < end {
        reach
    } else {
        end
    };
    let start: u64 = if at < stop {
        at
    } else {
        stop
    };
    let extent = Span::new(start as u32, stop as u32);
    assert(extent == scan_extent(range, *e));
    let d = Diagnostic::error(FileSpan::new(file, extent), e.code, text(&e.message));
    if e.unknown_name.is_some() {
        suggest_parser_name(d, file, extent, &e.near)
    } else {
        d
    }
}

/// A template's parts, and the reports after it. One that is not closed has
/// been reported where it was read; one that does not scan is reported here.
pub open spec fn template_spec(file: FileId, t: Option<TemplateNode>, diags: Seq<DiagView>) -> (
    Seq<TemplatePart>,
    Seq<DiagView>,
) {
    match t {
        None => (Seq::empty(), diags),
        Some(t) => if closed(t.text@) {
            match t.scanned {
                Ok(parts) => (parts@, diags),
                Err(e) => (Seq::empty(), diags.push(scan_report(file, t.range, e))),
            }
        } else {
            (Seq::empty(), diags)
        },
    }
}

fn is_closed(token: &String) -> (r: bool)
    ensures
        r == closed(token@),
{
    let n: usize = token.as_str().unicode_len();
    n >= 2 && token.as_str().get_char(0) == '`' && token.as_str().get_char(n - 1) == '`'
}

/// A template's parts.
pub fn convert_template(file: FileId, t: Option<TemplateNode>, diags: &mut Vec<Diagnostic>) -> (r: Vec<
    TemplatePart,
>)
    ensures
        (r@, diag_views(final(diags)@)) == template_spec(file, t, diag_views(old(diags)@)),
{
    let none: Vec<TemplatePart> = Vec::new();
    assert(none@ =~= Seq::empty());
    let Some(t) = t else {
        return none;
    };
    if !is_closed(&t.text) {
        return none;
    }
    match t.scanned {
        Ok(parts) => parts,
        Err(e) => {
            push_diag(diags, scan_to_report(file, t.range, &e));
            none
        },
    }
}

// ---------------------------------------------------------------------------
// Arguments
// ---------------------------------------------------------------------------

/// What the arguments of a call have come to.
pub ghost struct ArgState {
    pub args: Seq<CallArgView>,
    /// Whether every argument so far converted.
    pub converted: bool,
    pub diags: Seq<DiagView>,
}

pub open spec fn rejected(st: ArgState, file: FileId, span: Span, message: Seq<char>) -> ArgState {
    ArgState {
        converted: false,
        diags: st.diags.push(
            error_at(FileSpan { file, span }, DiagCode::InvalidConstructorArgument, message),
        ),
        ..st
    }
}

/// Whether a text is a given word.
pub open spec fn is_word(t: Option<String>, word: Option<Seq<char>>) -> bool {
    match (t, word) {
        (Some(t), Some(w)) => t@ == w,
        _ => false,
    }
}

/// The count of a `repeated` that is a word which names no parser.
pub open spec fn word_count(ctor: Option<Constructor>, st: ArgState, t: Option<String>, names_parser:
    bool) -> bool {
    ctor == Some(Constructor::Repeated) && st.args.len() > 0 && t is Some && !names_parser
}

pub open spec fn count_message() -> Seq<char> {
    "`repeated`'s count must be a whole-number literal — the parser plan is built when the program is compiled, so the count cannot be a parser or a variable"@
}

pub open spec fn literal_message() -> Seq<char> {
    "a parser constructor's literal argument must be a text literal or a whole number"@
}

/// A parser below: itself, or what it reported.
pub open spec fn take_parser(st: ArgState, c: Converted) -> ArgState {
    let diags = st.diags + diag_views(c.reports@);
    match c.ast {
        Some(p) => ArgState { args: st.args.push(CallArgView::Parser(p)), diags, ..st },
        None => ArgState { converted: false, diags, ..st },
    }
}

pub open spec fn take_named(st: ArgState, name: Seq<char>, c: Converted) -> ArgState {
    let diags = st.diags + diag_views(c.reports@);
    match c.ast {
        Some(p) => ArgState { args: st.args.push(CallArgView::Named(name, p)), diags, ..st },
        None => ArgState { converted: false, diags, ..st },
    }
}

/// The tail marker of a `sections`.
pub open spec fn take_tail(st: ArgState, file: FileId, v: ValueNode) -> ArgState {
    let diags = st.diags + diag_views(v.tail_reports@);
    match v.tail {
        TailResult::Unconverted => ArgState { converted: false, diags, ..st },
        TailResult::Built(t) => ArgState { args: st.args.push(CallArgView::Tail(t)), diags, ..st },
        TailResult::Rejected(es) => ArgState {
            converted: false,
            diags: diags + error_reports(file, es@),
            ..st
        },
    }
}

/// The value of a named argument that is not a literal.
pub open spec fn take_value(
    st: ArgState,
    file: FileId,
    keyword: Option<Seq<char>>,
    name: String,
    v: ValueNode,
    range: Span,
) -> ArgState {
    if is_word(Some(name), keyword) {
        match v.text {
            Some(t) => ArgState { args: st.args.push(CallArgView::Keyword(name@, t@)), ..st },
            None => rejected(st, file, range, "`"@ + name@ + ":` needs a value"@),
        }
    } else if is_word(v.constructor, Some(Constructor::Repeated.spec_keyword())) {
        take_tail(st, file, v)
    } else {
        take_named(st, name@, v.converted)
    }
}

/// Whether a token is written as a whole number: digits, after at most one `-`.
pub open spec fn written_as_int(raw: Seq<char>) -> bool {
    let i: int = if raw.len() > 0 && raw[0] == '-' {
        1
    } else {
        0
    };
    i < raw.len() && '0' <= raw[i] <= '9'
}

pub open spec fn take_literal(
    st: ArgState,
    file: FileId,
    raw: Seq<char>,
    number: Option<i64>,
    as_text: Option<String>,
    range: Span,
) -> ArgState {
    if written_as_int(raw) && number is Some {
        ArgState { args: st.args.push(CallArgView::Int(number->0)), ..st }
    } else {
        match as_text {
            Some(t) => ArgState { args: st.args.push(CallArgView::Text(t@)), ..st },
            None => rejected(st, file, range, literal_message()),
        }
    }
}

/// The words a constructor's arguments use for themselves.
pub open spec fn keyword_of(ctor: Option<Constructor>) -> Option<Seq<char>> {
    match ctor {
        Some(c) => c.spec_keyword_arg(),
        None => None,
    }
}

pub open spec fn flag_of(ctor: Option<Constructor>) -> Option<Seq<char>> {
    match ctor {
        Some(c) => c.spec_flag_arg(),
        None => None,
    }
}

/// One argument more.
pub open spec fn take_arg(st: ArgState, file: FileId, ctor: Option<Constructor>, arg: ArgNode) -> ArgState {
    match arg {
        ArgNode::Expr { range, text, names_parser, converted } => {
            if is_word(text, flag_of(ctor)) {
                ArgState { args: st.args.push(CallArgView::Flag(text->0@)), ..st }
            } else if word_count(ctor, st, text, names_parser) {
                rejected(st, file, range, count_message())
            } else {
                take_parser(st, converted)
            }
        },
        ArgNode::Named { range, name, literal, value } => match name {
            None => st,
            Some(n) => match literal {
                Some(l) => if is_word(name, keyword_of(ctor)) {
                    ArgState { args: st.args.push(CallArgView::Keyword(n@, l@)), ..st }
                } else {
                    rejected(
                        st,
                        file,
                        range,
                        "`"@ + n@ + ":` takes a parser, not a literal value"@,
                    )
                },
                None => match value {
                    Some(v) => take_value(st, file, keyword_of(ctor), n, v, range),
                    None => st,
                },
            },
        },
        ArgNode::Literal { range, raw, number, text } => take_literal(st, file, raw@, number, text, range),
        ArgNode::Other => st,
    }
}

/// The arguments of a call, from the left.
pub open spec fn take_args(st: ArgState, file: FileId, ctor: Option<Constructor>, args: Seq<ArgNode>) -> ArgState
    decreases args.len(),
{
    if args.len() == 0 {
        st
    } else {
        take_arg(take_args(st, file, ctor, args.drop_last()), file, ctor, args.last())
    }
}

pub open spec fn no_args(diags: Seq<DiagView>) -> ArgState {
    ArgState { args: Seq::empty(), converted: true, diags }
}

/// The arguments under conversion.
struct Taking {
    args: Vec<CallArg>,
    converted: bool,
}

impl Taking {
    spec fn state(self, diags: Seq<Diagnostic>) -> ArgState {
        ArgState {
            args: arg_views(self.args@),
            converted: self.converted,
            diags: diag_views(diags),
        }
    }

    fn push(&mut self, a: CallArg)
        ensures
            arg_views(final(self).args@) == arg_views(old(self).args@).push(a@),
            final(self).converted == old(self).converted,
    {
        self.args.push(a);
        assert(arg_views(self.args@) =~= arg_views(old(self).args@).push(a@));
    }

    fn reject(&mut self, file: FileId, span: Span, message: String, diags: &mut Vec<Diagnostic>)
        ensures
            final(self).state(final(diags)@) == rejected(
                old(self).state(old(diags)@),
                file,
                span,
                message@,
            ),
    {
        report(diags, file, span, DiagCode::InvalidConstructorArgument, message);
        self.converted = false;
    }

    fn take_expr(
        &mut self,
        file: FileId,
        ctor: Option<Constructor>,
        range: Span,
        word: Option<String>,
        names_parser: bool,
        converted: Converted,
        diags: &mut Vec<Diagnostic>,
    )
        ensures
            final(self).state(final(diags)@) == take_arg(
                old(self).state(old(diags)@),
                file,
                ctor,
                ArgNode::Expr { range, text: word, names_parser, converted },
            ),
    {
        let flagged = match (&word, flag_arg(ctor)) {
            (Some(w), Some(f)) => is(w, f),
            _ => false,
        };
        if flagged {
            if let Some(w) = word {
                self.push(CallArg::Flag(w));
            }
            return;
        }
        let repeated = match ctor {
            Some(c) => c == Constructor::Repeated,
            None => false,
        };
        if repeated && self.args.len() > 0 && word.is_some() && !names_parser {
            self.reject(
                file,
                range,
                text(
                    "`repeated`'s count must be a whole-number literal — the parser plan is built when the program is compiled, so the count cannot be a parser or a variable",
                ),
                diags,
            );
            return;
        }
        append_diags(diags, converted.reports);
        match converted.ast {
            Some(p) => self.push(CallArg::Parser(p)),
            None => {
                self.converted = false;
            },
        }
    }

    fn take_tail(&mut self, file: FileId, v: ValueNode, diags: &mut Vec<Diagnostic>)
        ensures
            final(self).state(final(diags)@) == take_tail(old(self).state(old(diags)@), file, v),
    {
        append_diags(diags, v.tail_reports);
        match v.tail {
            TailResult::Unconverted => {
                self.converted = false;
            },
            TailResult::Built(t) => self.push(CallArg::Tail(t)),
            TailResult::Rejected(es) => {
                report_errors(file, &es, diags);
                self.converted = false;
            },
        }
    }

    fn take_value(
        &mut self,
        file: FileId,
        ctor: Option<Constructor>,
        name: String,
        v: ValueNode,
        range: Span,
        diags: &mut Vec<Diagnostic>,
    )
        ensures
            final(self).state(final(diags)@) == take_value(
                old(self).state(old(diags)@),
                file,
                keyword_of(ctor),
                name,
                v,
                range,
            ),
    {
        let keyword = match keyword_arg(ctor) {
            Some(k) => is(&name, k),
            None => false,
        };
        if keyword {
            match v.text {
                Some(t) => self.push(CallArg::Keyword { name, value: t }),
                None => self.reject(file, range, text3("`", &name, ":` needs a value"), diags),
            }
            return;
        }
        let repeated = match &v.constructor {
            Some(c) => is(c, Constructor::Repeated.keyword()),
            None => false,
        };
        if repeated {
            self.take_tail(file, v, diags);
            return;
        }
        append_diags(diags, v.converted.reports);
        match v.converted.ast {
            Some(p) => self.push(CallArg::Named { name, parser: p }),
            None => {
                self.converted = false;
            },
        }
    }

    fn take_named(
        &mut self,
        file: FileId,
        ctor: Option<Constructor>,
        range: Span,
        name: Option<String>,
        literal: Option<String>,
        value: Option<ValueNode>,
        diags: &mut Vec<Diagnostic>,
    )
        ensures
            final(self).state(final(diags)@) == take_arg(
                old(self).state(old(diags)@),
                file,
                ctor,
                ArgNode::Named { range, name, literal, value },
            ),
    {
        let Some(n) = name else {
            return;
        };
        if let Some(l) = literal {
            let keyword = match keyword_arg(ctor) {
                Some(k) => is(&n, k),
                None => false,
            };
            if keyword {
                self.push(CallArg::Keyword { name: n, value: l });
            } else {
                let message = text3("`", &n, ":` takes a parser, not a literal value");
                self.reject(file, range, message, diags);
            }
            return;
        }
        if let Some(v) = value {
            self.take_value(file, ctor, n, v, range, diags);
        }
    }

    fn take_literal(
        &mut self,
        file: FileId,
        raw: &String,
        number: Option<i64>,
        as_text: Option<String>,
        range: Span,
        diags: &mut Vec<Diagnostic>,
    )
        ensures
            final(self).state(final(diags)@) == take_literal(
                old(self).state(old(diags)@),
                file,
                raw@,
                number,
                as_text,
                range,
            ),
    {
        if is_written_as_int(raw) {
            if let Some(n) = number {
                self.push(CallArg::Int(n));
                return;
            }
        }
        match as_text {
            Some(t) => self.push(CallArg::Text(t)),
            None => self.reject(
                file,
                range,
                text(
                    "a parser constructor's literal argument must be a text literal or a whole number",
                ),
                diags,
            ),
        }
    }

    fn take(&mut self, file: FileId, ctor: Option<Constructor>, arg: ArgNode, diags: &mut Vec<Diagnostic>)
        ensures
            final(self).state(final(diags)@) == take_arg(
                old(self).state(old(diags)@),
                file,
                ctor,
                arg,
            ),
    {
        match arg {
            ArgNode::Expr { range, text, names_parser, converted } => {
                self.take_expr(file, ctor, range, text, names_parser, converted, diags)
            },
            ArgNode::Named { range, name, literal, value } => {
                self.take_named(file, ctor, range, name, literal, value, diags)
            },
            ArgNode::Literal { range, raw, number, text } => {
                self.take_literal(file, &raw, number, text, range, diags)
            },
            ArgNode::Other => {},
        }
    }
}

fn keyword_arg(ctor: Option<Constructor>) -> (r: Option<&'static str>)
    ensures
        match keyword_of(ctor) {
            Some(k) => r matches Some(x) && x@ == k,
            None => r is None,
        },
{
    match ctor {
        Some(c) => c.keyword_arg(),
        None => None,
    }
}

fn flag_arg(ctor: Option<Constructor>) -> (r: Option<&'static str>)
    ensures
        match flag_of(ctor) {
            Some(k) => r matches Some(x) && x@ == k,
            None => r is None,
        },
{
    match ctor {
        Some(c) => c.flag_arg(),
        None => None,
    }
}

fn is_written_as_int(raw: &String) -> (r: bool)
    ensures
        r == written_as_int(raw@),
{
    let n: usize = raw.as_str().unicode_len();
    let mut i: usize = 0;
    if n > 0 && raw.as_str().get_char(0) == '-' {
        i = 1;
    }
    if i < n {
        let c = raw.as_str().get_char(i);
        '0' <= c && c <= '9'
    } else {
        false
    }
}

/// The arguments of a call of `name`, and whether all of them converted. One
/// that did not is reported.
pub fn extract_call_args(
    file: FileId,
    name: &String,
    args: Vec<ArgNode>,
    diags: &mut Vec<Diagnostic>,
) -> (r: (Vec<CallArg>, bool))
    ensures
        (ArgState {
            args: arg_views(r.0@),
            converted: r.1,
            diags: diag_views(final(diags)@),
        }) == take_args(
            no_args(diag_views(old(diags)@)),
            file,
            Constructor::spec_from_keyword(name@),
            args@,
        ),
{
    let ctor = Constructor::from_keyword(name);
    let ghost all = args@;
    let mut rest = reversed(args);
    let mut taking = Taking { args: Vec::new(), converted: true };
    assert(arg_views(taking.args@) =~= Seq::empty());
    let ghost st = no_args(diag_views(diags@));
    assert(all.take(0) =~= Seq::empty());
    let ghost mut n: int = 0;
    while rest.len() > 0
        invariant
            n + rest@.len() == all.len(),
            0 <= n,
            ctor == Constructor::spec_from_keyword(name@),
            rest@ == all.skip(n).reverse(),
            taking.state(diags@) == take_args(st, file, ctor, all.take(n)),
        decreases rest@.len(),
    {
        let ghost before = rest@;
        if let Some(arg) = rest.pop() {
            assert(arg == all[n]);
            taking.take(file, ctor, arg, diags);
            assert(all.take(n + 1).drop_last() =~= all.take(n));
            assert(all.take(n + 1).last() == all[n]);
        }
        proof {
            n = n + 1;
            assert(rest@ =~= all.skip(n).reverse());
        }
    }
    assert(all.take(n) =~= all);
    (taking.args, taking.converted)
}

// ---------------------------------------------------------------------------
// Calls
// ---------------------------------------------------------------------------

/// The arguments of the `repeated(...)` of a named argument, when all of them
/// converted.
pub fn repeated_call_args(
    file: FileId,
    span: Span,
    call: Option<CallNode>,
    diags: &mut Vec<Diagnostic>,
) -> (r: Option<Vec<CallArg>>)
    ensures
        match call {
            None => r is None && diag_views(final(diags)@) == diag_views(old(diags)@).push(
                error_at(
                    FileSpan { file, span },
                    DiagCode::MalformedParserExpression,
                    "malformed `repeated(...)` tail"@,
                ),
            ),
            Some(c) => {
                let st = take_args(
                    no_args(diag_views(old(diags)@)),
                    file,
                    Constructor::spec_from_keyword(c.name@),
                    c.args@,
                );
                &&& diag_views(final(diags)@) == st.diags
                &&& if st.converted {
                    r matches Some(a) && arg_views(a@) == st.args
                } else {
                    r is None
                }
            },
        },
{
    let Some(c) = call else {
        report(
            diags,
            file,
            span,
            DiagCode::MalformedParserExpression,
            text("malformed `repeated(...)` tail"),
        );
        return None;
    };
    let (args, converted) = extract_call_args(file, &c.name, c.args, diags);
    if converted {
        Some(args)
    } else {
        None
    }
}

/// The report on a constructor that does not exist: over its name, or over the
/// call where the name has no place.
pub open spec fn unknown_constructor(file: FileId, span: Span, c: CallNode) -> DiagView {
    let at = match c.name_range {
        Some(s) => s,
        None => span,
    };
    suggested(
        error_at(
            FileSpan { file, span: at },
            DiagCode::UnknownConstructor,
            "unknown parser constructor `"@ + c.name@ + "`"@,
        ),
        file,
        at,
        c.near,
    )
}

/// A constructor call: the step, and the reports after it. An argument that did
/// not convert rejects the call, with a report of its own if nothing below made
/// one.
pub open spec fn call_spec(file: FileId, span: Span, call: Option<CallNode>, diags: Seq<DiagView>) -> (
    StepView,
    Seq<DiagView>,
) {
    match call {
        None => (
            StepView::Rejected,
            diags.push(
                error_at(
                    FileSpan { file, span },
                    DiagCode::MalformedParserExpression,
                    "malformed parser constructor call"@,
                ),
            ),
        ),
        Some(c) => {
            let ctor = Constructor::spec_from_keyword(c.name@);
            let st = take_args(no_args(diags), file, ctor, c.args@);
            match ctor {
                None => (StepView::Rejected, st.diags.push(unknown_constructor(file, span, c))),
                Some(k) => if st.converted {
                    (StepView::Build(k, st.args, span), st.diags)
                } else if st.diags.len() == diags.len() {
                    (
                        StepView::Rejected,
                        st.diags.push(
                            error_at(
                                FileSpan { file, span },
                                DiagCode::InvalidConstructorArgument,
                                "`"@ + c.name@
                                    + "` has an argument that is not a parser expression"@,
                            ),
                        ),
                    )
                } else {
                    (StepView::Rejected, st.diags)
                },
            }
        },
    }
}

fn convert_constructor_call(
    file: FileId,
    span: Span,
    call: Option<CallNode>,
    diags: &mut Vec<Diagnostic>,
) -> (r: ConvertStep)
    ensures
        (r@, diag_views(final(diags)@)) == call_spec(file, span, call, diag_views(old(diags)@)),
{
    let Some(c) = call else {
        report(
            diags,
            file,
            span,
            DiagCode::MalformedParserExpression,
            text("malformed parser constructor call"),
        );
        return ConvertStep::Done(None);
    };
    let reported_before: usize = diags.len();
    let (args, converted) = extract_call_args(file, &c.name, c.args, diags);
    let Some(constructor) = Constructor::from_keyword(&c.name) else {
        let at = match c.name_range {
            Some(s) => s,
            None => span,
        };
        let d = Diagnostic::error(
            FileSpan::new(file, at),
            DiagCode::UnknownConstructor,
            text3("unknown parser constructor `", &c.name, "`"),
        );
        push_diag(diags, suggest_parser_name(d, file, at, &c.near));
        return ConvertStep::Done(None);
    };
    if !converted {
        if diags.len() == reported_before {
            let message = text3(
                "`",
                &c.name,
                "` has an argument that is not a parser expression",
            );
            report(diags, file, span, DiagCode::InvalidConstructorArgument, message);
        }
        return ConvertStep::Done(None);
    }
    ConvertStep::Build { constructor, args, range: span }
}

pub open spec fn unknown_atom(file: FileId, span: Span, word: Seq<char>, near: Option<String>) -> DiagView {
    suggested(
        error_at(
            FileSpan { file, span },
            DiagCode::UnknownAtomic,
            "unknown atomic parser `"@ + word + "`"@,
        ),
        file,
        span,
        near,
    )
}

/// A parser expression: the step, and the reports after it.
pub open spec fn convert_spec(file: FileId, span: Span, node: ParserNode, diags: Seq<DiagView>) -> (
    StepView,
    Seq<DiagView>,
) {
    match node {
        ParserNode::Atom { text, kind, near } => match kind {
            Some(k) => (StepView::Atomic(k, span), diags),
            None => (StepView::Rejected, diags.push(unknown_atom(file, span, text@, near))),
        },
        ParserNode::Template(t) => {
            let (parts, after) = template_spec(file, t, diags);
            (StepView::Template(parts, span), after)
        },
        ParserNode::Call(c) => call_spec(file, span, c, diags),
        ParserNode::Unknown => (
            StepView::Rejected,
            diags.push(
                error_at(
                    FileSpan { file, span },
                    DiagCode::MalformedParserExpression,
                    "malformed parser expression"@,
                ),
            ),
        ),
    }
}

/// Converts one parser expression, the ones below it converted already.
pub fn convert_parser_expr(
    file: FileId,
    span: Span,
    node: ParserNode,
    diags: &mut Vec<Diagnostic>,
) -> (r: ConvertStep)
    ensures
        (r@, diag_views(final(diags)@)) == convert_spec(file, span, node, diag_views(old(diags)@)),
{
    match node {
        ParserNode::Atom { text: word, kind, near } => match kind {
            Some(kind) => ConvertStep::Done(Some(ParserAst::Atomic { kind, span })),
            None => {
                let d = Diagnostic::error(
                    FileSpan::new(file, span),
                    DiagCode::UnknownAtomic,
                    text3("unknown atomic parser `", &word, "`"),
                );
                push_diag(diags, suggest_parser_name(d, file, span, &near));
                ConvertStep::Done(None)
            },
        },
        ParserNode::Template(t) => {
            let parts = convert_template(file, t, diags);
            ConvertStep::Done(Some(ParserAst::Template { parts, span }))
        },
        ParserNode::Call(c) => convert_constructor_call(file, span, c, diags),
        ParserNode::Unknown => {
            report(
                diags,
                file,
                span,
                DiagCode::MalformedParserExpression,
                text("malformed parser expression"),
            );
            ConvertStep::Done(None)
        },
    }
}

/// Takes a built constructor, or reports why it could not be built.
pub fn finish_call(
    file: FileId,
    built: Result<ParserAst, Vec<ValidationError>>,
    diags: &mut Vec<Diagnostic>,
) -> (r: Option<ParserAst>)
    ensures
        match built {
            Ok(ast) => r == Some(ast) && diag_views(final(diags)@) == diag_views(old(diags)@),
            Err(es) => r is None && diag_views(final(diags)@) == diag_views(old(diags)@)
                + error_reports(file, es@),
        },
{
    match built {
        Ok(ast) => Some(ast),
        Err(es) => {
            report_errors(file, &es, diags);
            None
        },
    }
}

/// Takes a converted tree that nothing is wrong with, or reports what is.
pub fn accept_valid(
    file: FileId,
    ast: Option<ParserAst>,
    errors: &Vec<ValidationError>,
    diags: &mut Vec<Diagnostic>,
) -> (r: Option<ParserAst>)
    ensures
        match ast {
            None => r is None && diag_views(final(diags)@) == diag_views(old(diags)@),
            Some(_) => if errors@.len() == 0 {
                r == ast && diag_views(final(diags)@) == diag_views(old(diags)@)
            } else {
                r is None && diag_views(final(diags)@) == diag_views(old(diags)@)
                    + error_reports(file, errors@)
            },
        },
{
    let Some(ast) = ast else {
        return None;
    };
    if errors.len() > 0 {
        report_errors(file, errors, diags);
        return None;
    }
    Some(ast)
}

// ---------------------------------------------------------------------------
// Entry points
// ---------------------------------------------------------------------------

/// What followed the conversion of a whole parser expression.
#[derive(Debug)]
pub enum Outcome {
    /// The expression was rejected, and that was reported.
    Rejected,
    /// It has no type, for this reason.
    Untyped(String),
    /// Its plan was refused, for this reason.
    Unregistered(String),
    Planned(PlanId, Type),
}

pub open spec fn conversion_report(file: FileId, span: Span, reason: Seq<char>) -> DiagView {
    error_at(FileSpan { file, span }, DiagCode::ParserConversion, reason)
}

/// A parser expression's plan and type. What goes wrong after its conversion is
/// about the whole of it, and reported there.
pub fn analyze_parser_expr(
    file: FileId,
    span: Span,
    outcome: Outcome,
    diags: &mut Vec<Diagnostic>,
) -> (r: Option<ParserAnalysis>)
    ensures
        match outcome {
            Outcome::Rejected => r is None && diag_views(final(diags)@) == diag_views(old(diags)@),
            Outcome::Untyped(e) => r is None && diag_views(final(diags)@) == diag_views(
                old(diags)@,
            ).push(conversion_report(file, span, e@)),
            Outcome::Unregistered(e) => r is None && diag_views(final(diags)@) == diag_views(
                old(diags)@,
            ).push(conversion_report(file, span, e@)),
            Outcome::Planned(plan, result_type) => {
                &&& r == Some(ParserAnalysis { plan, result_type })
                &&& diag_views(final(diags)@) == diag_views(old(diags)@)
            },
        },
{
    match outcome {
        Outcome::Rejected => None,
        Outcome::Untyped(e) => {
            report(diags, file, span, DiagCode::ParserConversion, e);
            None
        },
        Outcome::Unregistered(e) => {
            report(diags, file, span, DiagCode::ParserConversion, e);
            None
        },
        Outcome::Planned(plan, result_type) => Some(ParserAnalysis { plan, result_type }),
    }
}

/// A parser expression's type alone. Its tree is kept, with the type of every
/// node, exactly when it has one.
pub fn synthesize_parser_type(
    file: FileId,
    span: Span,
    ast: Option<ParserAst>,
    synthesized: Result<(Type, Vec<(Span, Type)>), String>,
    diags: &mut Vec<Diagnostic>,
    index: &mut Vec<ParserIndex>,
) -> (r: Option<Type>)
    ensures
        match (ast, synthesized) {
            (None, _) => {
                &&& r is None
                &&& final(index)@ == old(index)@
                &&& diag_views(final(diags)@) == diag_views(old(diags)@)
            },
            (Some(a), Ok((ty, node_types))) => {
                &&& r == Some(ty)
                &&& final(index)@ == old(index)@.push(
                    ParserIndex { expr_range: span, ast: a, node_types },
                )
                &&& diag_views(final(diags)@) == diag_views(old(diags)@)
            },
            (Some(_), Err(e)) => {
                &&& r is None
                &&& final(index)@ == old(index)@
                &&& diag_views(final(diags)@) == diag_views(old(diags)@).push(
                    conversion_report(file, span, e@),
                )
            },
        },
{
    let Some(ast) = ast else {
        return None;
    };
    match synthesized {
        Ok((ty, node_types)) => {
            index.push(ParserIndex { expr_range: span, ast, node_types });
            Some(ty)
        },
        Err(e) => {
            report(diags, file, span, DiagCode::ParserConversion, e);
            None
        },
    }
}

// ---------------------------------------------------------------------------
// Laws
// ---------------------------------------------------------------------------

proof fn lemma_reports_grow(st: ArgState, file: FileId, ctor: Option<Constructor>, args: Seq<ArgNode>)
    ensures
        take_args(st, file, ctor, args).diags.len() >= st.diags.len(),
    decreases args.len(),
{
    if args.len() > 0 {
        lemma_reports_grow(st, file, ctor, args.drop_last());
    }
}

/// Nothing is rejected in silence: an expression that does not convert leaves at
/// least one report more than there was.
pub proof fn law_rejections_are_reported(
    file: FileId,
    span: Span,
    node: ParserNode,
    diags: Seq<DiagView>,
)
    ensures
        convert_spec(file, span, node, diags).0 is Rejected ==> convert_spec(
            file,
            span,
            node,
            diags,
        ).1.len() > diags.len(),
{
    match node {
        ParserNode::Call(c) => match c {
            Some(c) => lemma_reports_grow(
                no_args(diags),
                file,
                Constructor::spec_from_keyword(c.name@),
                c.args@,
            ),
            None => {},
        },
        _ => {},
    }
}

/// A word is a flag, and a `name:` a keyword, only for the constructor that has
/// it: every other call takes the argument as a parser.
pub proof fn law_words_belong_to_their_constructor(
    file: FileId,
    ctor: Constructor,
    word: String,
    names_parser: bool,
    c: Converted,
    range: Span,
    st: ArgState,
)
    requires
        ctor != Constructor::Grid,
        ctor != Constructor::Repeated,
    ensures
        take_arg(
            st,
            file,
            Some(ctor),
            (ArgNode::Expr { range, text: Some(word), names_parser, converted: c }),
        ) == take_parser(st, c),
{
}

} // verus!
