//! Source positions and the reports made about them.
use vstd::prelude::*;
use vstd::string::*;

verus! {

/// The identity of one source file.
#[derive(Clone, Copy, Debug, PartialEq, Eq, Structural)]
pub struct FileId(pub u32);

/// A half-open range of byte offsets, `[start, end)`.
#[derive(Clone, Copy, Debug, PartialEq, Eq, Structural)]
pub struct Span {
    pub start: u32,
    pub end: u32,
}

impl Span {
    pub fn new(start: u32, end: u32) -> (r: Span)
        ensures
            r == (Span { start, end }),
    {
        Span { start, end }
    }

    /// The empty span at `offset`.
    pub fn at(offset: u32) -> (r: Span)
        ensures
            r == (Span { start: offset, end: offset }),
    {
        Span { start: offset, end: offset }
    }

    /// The span as the pair the typed tree carries.
    pub open spec fn pair(self) -> (u32, u32) {
        (self.start, self.end)
    }

    pub fn to_pair(self) -> (r: (u32, u32))
        ensures
            r == self.pair(),
    {
        (self.start, self.end)
    }

    /// The span's extent, clamped at zero when the ends are reversed.
    pub open spec fn width(self) -> nat {
        if self.start <= self.end {
            (self.end - self.start) as nat
        } else {
            0
        }
    }

    /// Whether the span covers `offset`, its end included.
    pub open spec fn covers(self, offset: u32) -> bool {
        self.start <= offset <= self.end
    }

    /// Whether `inner` lies within this span.
    pub open spec fn encloses(self, inner: Span) -> bool {
        self.start <= inner.start && inner.end <= self.end
    }
}

/// A span together with the file it lies in.
#[derive(Clone, Copy, Debug, PartialEq, Eq, Structural)]
pub struct FileSpan {
    pub file: FileId,
    pub span: Span,
}

impl FileSpan {
    pub fn new(file: FileId, span: Span) -> (r: FileSpan)
        ensures
            r == (FileSpan { file, span }),
    {
        FileSpan { file, span }
    }
}

/// How serious a report is.
#[derive(Clone, Copy, Debug, PartialEq, Eq, Structural)]
pub enum Severity {
    Error,
    Warning,
}

/// What a report is about.
#[derive(Clone, Copy, Debug, PartialEq, Eq, Structural)]
pub enum DiagCode {
    UnknownName,
    UnknownType,
    NotAType,
    DuplicateDeclaration,
    NestedFunction,
    RecursiveTypeDeclaration,
    FunctionReadsOuterBinding,
    NotAStruct,
    RetiredKeyword,
    TypeMismatch,
    InfiniteType,
    NotEquatable,
    NotIterable,
    NotOrderable,
    DuplicateMember,
    NotNumericOperation,
    ReturnOutsideFunction,
    BreakOutsideLoop,
    IntLiteralOutOfRange,
    NotHashable,
    NotNumeric,
    UndefinedOperation,
    BreakValueOutsideLoop,
    GenericFunctionValue,
    NoTupleElement,
    NotIndexable,
    NotAnAssignmentTarget,
    ConstructorValue,
    TemplateValue,
    ArgumentCount,
    NotCallable,
    WrongTypeArgumentCount,
    InternalMissingType,
    InternalNotASourceFile,
    NoMethodOnType,
    NoFieldOnType,
    MissingField,
    UnknownField,
    DuplicateField,
    NonExhaustiveMatch,
    UnreachableArm,
    UnknownEnumVariant,
    NotAPatternForType,
    PayloadArityMismatch,
    RefutableBinding,
    UnknownAtomic,
    InvalidCaptureName,
    UnknownCaptureKind,
    UnknownConstructor,
    ConstructorArity,
    MisplacedRepeatedTail,
    InvalidConstructorArgument,
    MalformedParserExpression,
    ParserConversion,
    TemplateScan,
}

impl DiagCode {
    /// The letter and number the code is printed as.
    pub open spec fn spec_parts(self) -> (char, nat) {
        match self {
            DiagCode::UnknownName => ('N', 1),
            DiagCode::UnknownType => ('N', 2),
            DiagCode::NotAType => ('N', 3),
            DiagCode::DuplicateDeclaration => ('N', 4),
            DiagCode::NestedFunction => ('N', 5),
            DiagCode::RecursiveTypeDeclaration => ('N', 6),
            DiagCode::FunctionReadsOuterBinding => ('N', 7),
            DiagCode::NotAStruct => ('N', 8),
            DiagCode::RetiredKeyword => ('N', 9),
            DiagCode::TypeMismatch => ('Y', 1),
            DiagCode::InfiniteType => ('Y', 2),
            DiagCode::NotEquatable => ('Y', 4),
            DiagCode::NotIterable => ('Y', 5),
            DiagCode::NotOrderable => ('Y', 6),
            DiagCode::DuplicateMember => ('Y', 8),
            DiagCode::NotNumericOperation => ('Y', 10),
            DiagCode::ReturnOutsideFunction => ('Y', 11),
            DiagCode::BreakOutsideLoop => ('Y', 12),
            DiagCode::IntLiteralOutOfRange => ('Y', 13),
            DiagCode::NotHashable => ('Y', 14),
            DiagCode::NotNumeric => ('Y', 15),
            DiagCode::UndefinedOperation => ('Y', 16),
            DiagCode::BreakValueOutsideLoop => ('Y', 17),
            DiagCode::GenericFunctionValue => ('Y', 18),
            DiagCode::NoTupleElement => ('Y', 19),
            DiagCode::NotIndexable => ('Y', 20),
            DiagCode::NotAnAssignmentTarget => ('Y', 21),
            DiagCode::ConstructorValue => ('Y', 22),
            DiagCode::TemplateValue => ('Y', 23),
            DiagCode::ArgumentCount => ('Y', 24),
            DiagCode::NotCallable => ('Y', 25),
            DiagCode::WrongTypeArgumentCount => ('Y', 7),
            DiagCode::InternalMissingType => ('Y', 99),
            DiagCode::InternalNotASourceFile => ('Y', 98),
            DiagCode::NoMethodOnType => ('Y', 110),
            DiagCode::NoFieldOnType => ('Y', 112),
            DiagCode::MissingField => ('Y', 113),
            DiagCode::UnknownField => ('Y', 114),
            DiagCode::DuplicateField => ('Y', 115),
            DiagCode::NonExhaustiveMatch => ('Y', 120),
            DiagCode::UnreachableArm => ('Y', 121),
            DiagCode::UnknownEnumVariant => ('Y', 122),
            DiagCode::NotAPatternForType => ('Y', 123),
            DiagCode::PayloadArityMismatch => ('Y', 124),
            DiagCode::RefutableBinding => ('Y', 125),
            DiagCode::UnknownAtomic => ('I', 10),
            DiagCode::InvalidCaptureName => ('I', 11),
            DiagCode::UnknownCaptureKind => ('I', 12),
            DiagCode::UnknownConstructor => ('I', 13),
            DiagCode::ConstructorArity => ('I', 14),
            DiagCode::MisplacedRepeatedTail => ('I', 15),
            DiagCode::InvalidConstructorArgument => ('I', 20),
            DiagCode::MalformedParserExpression => ('I', 21),
            DiagCode::ParserConversion => ('I', 22),
            DiagCode::TemplateScan => ('I', 30),
        }
    }

    pub fn parts(self) -> (r: (char, u64))
        ensures
            r.0 == self.spec_parts().0,
            r.1 == self.spec_parts().1,
    {
        match self {
            DiagCode::UnknownName => ('N', 1),
            DiagCode::UnknownType => ('N', 2),
            DiagCode::NotAType => ('N', 3),
            DiagCode::DuplicateDeclaration => ('N', 4),
            DiagCode::NestedFunction => ('N', 5),
            DiagCode::RecursiveTypeDeclaration => ('N', 6),
            DiagCode::FunctionReadsOuterBinding => ('N', 7),
            DiagCode::NotAStruct => ('N', 8),
            DiagCode::RetiredKeyword => ('N', 9),
            DiagCode::TypeMismatch => ('Y', 1),
            DiagCode::InfiniteType => ('Y', 2),
            DiagCode::NotEquatable => ('Y', 4),
            DiagCode::NotIterable => ('Y', 5),
            DiagCode::NotOrderable => ('Y', 6),
            DiagCode::DuplicateMember => ('Y', 8),
            DiagCode::NotNumericOperation => ('Y', 10),
            DiagCode::ReturnOutsideFunction => ('Y', 11),
            DiagCode::BreakOutsideLoop => ('Y', 12),
            DiagCode::IntLiteralOutOfRange => ('Y', 13),
            DiagCode::NotHashable => ('Y', 14),
            DiagCode::NotNumeric => ('Y', 15),
            DiagCode::UndefinedOperation => ('Y', 16),
            DiagCode::BreakValueOutsideLoop => ('Y', 17),
            DiagCode::GenericFunctionValue => ('Y', 18),
            DiagCode::NoTupleElement => ('Y', 19),
            DiagCode::NotIndexable => ('Y', 20),
            DiagCode::NotAnAssignmentTarget => ('Y', 21),
            DiagCode::ConstructorValue => ('Y', 22),
            DiagCode::TemplateValue => ('Y', 23),
            DiagCode::ArgumentCount => ('Y', 24),
            DiagCode::NotCallable => ('Y', 25),
            DiagCode::WrongTypeArgumentCount => ('Y', 7),
            DiagCode::InternalMissingType => ('Y', 99),
            DiagCode::InternalNotASourceFile => ('Y', 98),
            DiagCode::NoMethodOnType => ('Y', 110),
            DiagCode::NoFieldOnType => ('Y', 112),
            DiagCode::MissingField => ('Y', 113),
            DiagCode::UnknownField => ('Y', 114),
            DiagCode::DuplicateField => ('Y', 115),
            DiagCode::NonExhaustiveMatch => ('Y', 120),
            DiagCode::UnreachableArm => ('Y', 121),
            DiagCode::UnknownEnumVariant => ('Y', 122),
            DiagCode::NotAPatternForType => ('Y', 123),
            DiagCode::PayloadArityMismatch => ('Y', 124),
            DiagCode::RefutableBinding => ('Y', 125),
            DiagCode::UnknownAtomic => ('I', 10),
            DiagCode::InvalidCaptureName => ('I', 11),
            DiagCode::UnknownCaptureKind => ('I', 12),
            DiagCode::UnknownConstructor => ('I', 13),
            DiagCode::ConstructorArity => ('I', 14),
            DiagCode::MisplacedRepeatedTail => ('I', 15),
            DiagCode::InvalidConstructorArgument => ('I', 20),
            DiagCode::MalformedParserExpression => ('I', 21),
            DiagCode::ParserConversion => ('I', 22),
            DiagCode::TemplateScan => ('I', 30),
        }
    }
}

/// An edit a report offers.
#[derive(Debug)]
pub struct Suggestion {
    pub at: FileSpan,
    /// What to write there instead, when there is one thing to write.
    pub replacement: Option<String>,
    pub message: String,
}

/// Something else worth seeing, and where.
#[derive(Debug)]
pub struct Note {
    pub at: FileSpan,
    pub message: String,
}

/// One report: what is wrong, where, and how it might be mended.
#[derive(Debug)]
pub struct Diagnostic {
    pub severity: Severity,
    pub code: DiagCode,
    pub message: String,
    pub primary: FileSpan,
    pub suggestions: Vec<Suggestion>,
    pub notes: Vec<Note>,
}

/// The contents of a [`Suggestion`].
pub ghost struct SuggestionView {
    pub at: FileSpan,
    pub replacement: Option<Seq<char>>,
    pub message: Seq<char>,
}

/// The contents of a [`Note`].
pub ghost struct NoteView {
    pub at: FileSpan,
    pub message: Seq<char>,
}

impl View for Note {
    type V = NoteView;

    open spec fn view(&self) -> NoteView {
        NoteView { at: self.at, message: self.message@ }
    }
}

/// The contents of a [`Diagnostic`].
pub ghost struct DiagView {
    pub severity: Severity,
    pub code: DiagCode,
    pub message: Seq<char>,
    pub primary: FileSpan,
    pub suggestions: Seq<SuggestionView>,
    pub notes: Seq<NoteView>,
}

impl View for Suggestion {
    type V = SuggestionView;

    open spec fn view(&self) -> SuggestionView {
        SuggestionView {
            at: self.at,
            replacement: match self.replacement {
                Some(r) => Some(r@),
                None => None,
            },
            message: self.message@,
        }
    }
}

impl View for Diagnostic {
    type V = DiagView;

    open spec fn view(&self) -> DiagView {
        DiagView {
            severity: self.severity,
            code: self.code,
            message: self.message@,
            primary: self.primary,
            suggestions: self.suggestions@.map_values(|s: Suggestion| s@),
            notes: self.notes@.map_values(|n: Note| n@),
        }
    }
}

/// An error with no suggestion.
pub open spec fn error_at(at: FileSpan, code: DiagCode, message: Seq<char>) -> DiagView {
    DiagView {
        severity: Severity::Error,
        code,
        message,
        primary: at,
        suggestions: Seq::empty(),
        notes: Seq::empty(),
    }
}

/// `d` with one more suggestion.
pub open spec fn suggesting(
    d: DiagView,
    at: FileSpan,
    replacement: Seq<char>,
    message: Seq<char>,
) -> DiagView {
    DiagView {
        suggestions: d.suggestions.push(
            SuggestionView { at, replacement: Some(replacement), message },
        ),
        ..d
    }
}

/// `d` with a hint that replaces nothing.
pub open spec fn hinting(d: DiagView, at: FileSpan, message: Seq<char>) -> DiagView {
    DiagView {
        suggestions: d.suggestions.push(SuggestionView { at, replacement: None, message }),
        ..d
    }
}

/// `d` with one more note.
pub open spec fn noting(d: DiagView, at: FileSpan, message: Seq<char>) -> DiagView {
    DiagView { notes: d.notes.push(NoteView { at, message }), ..d }
}

/// The wording of a spelling suggestion.
pub open spec fn did_you_mean(near: Seq<char>) -> Seq<char> {
    "did you mean `"@ + near + "`?"@
}

impl Diagnostic {
    /// An error report.
    pub fn error(at: FileSpan, code: DiagCode, message: String) -> (r: Diagnostic)
        ensures
            r@ == error_at(at, code, message@),
    {
        let r = Diagnostic {
            severity: Severity::Error,
            code,
            message,
            primary: at,
            suggestions: Vec::new(),
            notes: Vec::new(),
        };
        assert(r@.suggestions =~= Seq::empty());
        assert(r@.notes =~= Seq::empty());
        r
    }

    /// Adds a hint that replaces nothing.
    pub fn with_hint(self, at: FileSpan, message: String) -> (r: Diagnostic)
        ensures
            r@ == hinting(self@, at, message@),
    {
        let mut d = self;
        let ghost before = d.suggestions@;
        d.suggestions.push(Suggestion { at, replacement: None, message });
        assert(d.suggestions@.map_values(|s: Suggestion| s@) =~= before.map_values(
            |s: Suggestion| s@,
        ).push(SuggestionView { at, replacement: None, message: message@ }));
        d
    }

    /// Adds a note.
    pub fn with_note(self, at: FileSpan, message: String) -> (r: Diagnostic)
        ensures
            r@ == noting(self@, at, message@),
    {
        let mut d = self;
        let ghost before = d.notes@;
        d.notes.push(Note { at, message });
        assert(d.notes@.map_values(|n: Note| n@) =~= before.map_values(|n: Note| n@).push(
            NoteView { at, message: message@ },
        ));
        d
    }

    /// Adds a suggestion that replaces the text at `at`.
    pub fn with_suggestion(self, at: FileSpan, replacement: String, message: String) -> (r: Diagnostic)
        ensures
            r@ == suggesting(self@, at, replacement@, message@),
    {
        let mut d = self;
        let ghost before = d.suggestions@;
        d.suggestions.push(Suggestion { at, replacement: Some(replacement), message });
        assert(d.suggestions@.map_values(|s: Suggestion| s@) =~= before.map_values(
            |s: Suggestion| s@,
        ).push(SuggestionView { at, replacement: Some(replacement@), message: message@ }));
        d
    }

    /// Adds the suggestion that `near` was meant.
    pub fn with_did_you_mean(self, at: FileSpan, near: &str) -> (r: Diagnostic)
        ensures
            r@ == suggesting(self@, at, near@, did_you_mean(near@)),
    {
        let message = text3("did you mean `", near, "`?");
        self.with_suggestion(at, text(near), message)
    }
}

/// The contents of a list of reports.
pub open spec fn diag_views(ds: Seq<Diagnostic>) -> Seq<DiagView> {
    ds.map_values(|d: Diagnostic| d@)
}

/// Appends one report.
pub fn push_diag(ds: &mut Vec<Diagnostic>, d: Diagnostic)
    ensures
        diag_views(final(ds)@) == diag_views(old(ds)@).push(d@),
{
    ds.push(d);
    assert(diag_views(ds@) =~= diag_views(old(ds)@).push(d@));
}

impl Suggestion {
    pub fn dup(&self) -> (r: Suggestion)
        ensures
            r@ == self@,
    {
        Suggestion {
            at: self.at,
            replacement: match &self.replacement {
                Some(r) => Some(text(r)),
                None => None,
            },
            message: text(&self.message),
        }
    }
}

impl Diagnostic {
    pub fn dup(&self) -> (r: Diagnostic)
        ensures
            r@ == self@,
    {
        let mut suggestions: Vec<Suggestion> = Vec::new();
        let mut i: usize = 0;
        while i < self.suggestions.len()
            invariant
                i <= self.suggestions@.len(),
                suggestions@.len() == i,
                forall|j: int| 0 <= j < i ==> (#[trigger] suggestions@[j])@ == self.suggestions@[j]@,
            decreases self.suggestions@.len() - i,
        {
            suggestions.push(self.suggestions[i].dup());
            i += 1;
        }
        let mut notes: Vec<Note> = Vec::new();
        let mut k: usize = 0;
        while k < self.notes.len()
            invariant
                k <= self.notes@.len(),
                notes@.len() == k,
                forall|j: int| 0 <= j < k ==> (#[trigger] notes@[j])@ == self.notes@[j]@,
            decreases self.notes@.len() - k,
        {
            notes.push(Note { at: self.notes[k].at, message: text(&self.notes[k].message) });
            k += 1;
        }
        let r = Diagnostic {
            severity: self.severity,
            code: self.code,
            message: text(&self.message),
            primary: self.primary,
            suggestions,
            notes,
        };
        assert(r@.suggestions =~= self@.suggestions);
        assert(r@.notes =~= self@.notes);
        r
    }
}

/// Adds copies of reports after `ds`.
pub fn copy_diags(more: &Vec<Diagnostic>, ds: &mut Vec<Diagnostic>)
    ensures
        diag_views(final(ds)@) == diag_views(old(ds)@) + diag_views(more@),
{
    let ghost all = diag_views(more@);
    let ghost d0 = diag_views(ds@);
    let mut i: usize = 0;
    assert(d0 =~= d0 + all.take(0));
    while i < more.len()
        invariant
            i <= more@.len(),
            all == diag_views(more@),
            diag_views(ds@) == d0 + all.take(i as int),
        decreases more@.len() - i,
    {
        push_diag(ds, more[i].dup());
        assert(diag_views(ds@) =~= d0 + all.take(i + 1));
        i += 1;
    }
    assert(all.take(i as int) =~= all);
}

/// Appends a list of reports.
pub fn append_diags(ds: &mut Vec<Diagnostic>, mut more: Vec<Diagnostic>)
    ensures
        diag_views(final(ds)@) == diag_views(old(ds)@) + diag_views(more@),
{
    let ghost tail = more@;
    ds.append(&mut more);
    assert(diag_views(ds@) =~= diag_views(old(ds)@) + diag_views(tail));
}

// ---------------------------------------------------------------------------
// Text
// ---------------------------------------------------------------------------

/// An owned copy of `s`.
pub fn text(s: &str) -> (r: String)
    ensures
        r@ == s@,
{
    let mut r = String::new();
    r.append(s);
    assert(r@ =~= s@);
    r
}

/// The concatenation of two strings.
pub fn text2(a: &str, b: &str) -> (r: String)
    ensures
        r@ == a@ + b@,
{
    let mut r = text(a);
    r.append(b);
    r
}

/// The concatenation of three strings.
pub fn text3(a: &str, b: &str, c: &str) -> (r: String)
    ensures
        r@ == a@ + b@ + c@,
{
    let mut r = text2(a, b);
    r.append(c);
    r
}

/// The concatenation of five strings.
pub fn text5(a: &str, b: &str, c: &str, d: &str, e: &str) -> (r: String)
    ensures
        r@ == a@ + b@ + c@ + d@ + e@,
{
    let mut r = text3(a, b, c);
    r.append(d);
    r.append(e);
    r
}

/// The decimal digit for `n`, which is below ten.
pub open spec fn digit(n: nat) -> char {
    "0123456789"@[n as int]
}

/// `n` written in decimal, without leading zeros.
pub open spec fn decimal_digits(n: nat) -> Seq<char>
    decreases n,
{
    if n < 10 {
        seq![digit(n)]
    } else {
        decimal_digits(n / 10).push(digit(n % 10))
    }
}

fn digit_text(n: u64) -> (r: &'static str)
    requires
        n < 10,
    ensures
        r@ == seq![digit(n as nat)],
{
    proof {
        reveal_strlit("0123456789");
        reveal_strlit("0");
        reveal_strlit("1");
        reveal_strlit("2");
        reveal_strlit("3");
        reveal_strlit("4");
        reveal_strlit("5");
        reveal_strlit("6");
        reveal_strlit("7");
        reveal_strlit("8");
        reveal_strlit("9");
    }
    let r = match n {
        0 => "0",
        1 => "1",
        2 => "2",
        3 => "3",
        4 => "4",
        5 => "5",
        6 => "6",
        7 => "7",
        8 => "8",
        _ => "9",
    };
    assert(r@ =~= seq![digit(n as nat)]);
    r
}

/// `n` written in decimal.
pub fn decimal(n: u64) -> (r: String)
    ensures
        r@ == decimal_digits(n as nat),
    decreases n,
{
    if n < 10 {
        text(digit_text(n))
    } else {
        let mut r = decimal(n / 10);
        let ghost before = r@;
        r.append(digit_text(n % 10));
        assert(r@ =~= before.push(digit((n % 10) as nat)));
        r
    }
}

/// Distinct numbers are written differently.
pub proof fn lemma_decimal_injective(a: nat, b: nat)
    requires
        decimal_digits(a) == decimal_digits(b),
    ensures
        a == b,
    decreases a,
{
    reveal_strlit("0123456789");
    let x = decimal_digits(a);
    let y = decimal_digits(b);
    lemma_decimal_nonempty(a / 10);
    lemma_decimal_nonempty(b / 10);
    if a < 10 && b < 10 {
        assert(x[0] == digit(a) && y[0] == digit(b));
    } else if a < 10 {
        assert(x.len() == 1 && y.len() >= 2);
    } else if b < 10 {
        assert(y.len() == 1 && x.len() >= 2);
    } else {
        assert(x.drop_last() =~= decimal_digits(a / 10));
        assert(y.drop_last() =~= decimal_digits(b / 10));
        assert(x.last() == digit(a % 10) && y.last() == digit(b % 10));
        lemma_decimal_injective(a / 10, b / 10);
        assert(a % 10 == b % 10);
    }
}

pub proof fn lemma_decimal_nonempty(n: nat)
    ensures
        decimal_digits(n).len() >= 1,
    decreases n,
{
    if n >= 10 {
        lemma_decimal_nonempty(n / 10);
    }
}

/// The elements in the opposite order.
pub fn reversed<T>(v: Vec<T>) -> (r: Vec<T>)
    ensures
        r@ == v@.reverse(),
{
    let mut rest = v;
    let ghost all = rest@;
    let mut out: Vec<T> = Vec::new();
    while rest.len() > 0
        invariant
            rest@.len() + out@.len() == all.len(),
            rest@ == all.take(rest@.len() as int),
            forall|j: int| 0 <= j < out@.len() ==> (#[trigger] out@[j]) == all[all.len() - 1 - j],
        decreases rest@.len(),
    {
        let ghost k = rest@.len() - 1;
        if let Some(x) = rest.pop() {
            out.push(x);
        }
        assert(rest@ =~= all.take(k));
    }
    assert(out@ =~= all.reverse());
    out
}

impl Clone for Diagnostic {
    fn clone(&self) -> (r: Diagnostic)
        ensures
            r@ == self@,
    {
        self.dup()
    }
}

/// The number that decimal digits write.
pub open spec fn decimal_value(s: Seq<char>) -> nat
    decreases s.len(),
{
    if s.len() == 0 {
        0
    } else {
        decimal_value(s.drop_last()) * 10 + (s.last() as nat - '0' as nat) as nat
    }
}

/// A number written in decimal reads back as itself, and is written in digits.
pub proof fn law_decimals_read_back(n: nat)
    ensures
        decimal_value(decimal_digits(n)) == n,
        forall|i: int|
            0 <= i < decimal_digits(n).len() ==> '0' <= #[trigger] decimal_digits(n)[i] <= '9',
    decreases n,
{
    reveal_strlit("0123456789");
    let d = decimal_digits(n);
    if n < 10 {
        assert(d.drop_last() =~= Seq::empty());
        assert(decimal_value(d.drop_last()) == 0);
        assert(d.last() == digit(n));
        assert(digit(n) as nat == '0' as nat + n);
    } else {
        law_decimals_read_back(n / 10);
        assert(d.drop_last() =~= decimal_digits(n / 10));
        assert(digit(n % 10) as nat == '0' as nat + n % 10);
        assert forall|i: int| 0 <= i < d.len() implies '0' <= #[trigger] d[i] <= '9' by {
            if i < d.len() - 1 {
                assert(d[i] == decimal_digits(n / 10)[i]);
            }
        }
    }
}

} // verus!
