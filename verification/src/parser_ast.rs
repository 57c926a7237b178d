//! The tree an input-parser expression is converted to.
use vstd::prelude::*;

use crate::source::Span;

verus! {

/// An atomic parser: its place in the table of atomic parsers.
#[derive(Clone, Copy, Debug, PartialEq, Eq, Structural)]
pub struct AtomicKind(pub u16);

/// The constructors a parser expression can call.
#[derive(Clone, Copy, Debug, PartialEq, Eq, Structural)]
pub enum Constructor {
    Lines,
    Sections,
    Csv,
    Ws,
    Sep,
    Grid,
    Block,
    Choice,
    Optional,
    Scan,
    OneOf,
    Chars,
    Matrix,
    Repeated,
}

impl Constructor {
    /// The word the constructor is written with.
    pub open spec fn spec_keyword(self) -> Seq<char> {
        match self {
            Constructor::Lines => "lines"@,
            Constructor::Sections => "sections"@,
            Constructor::Csv => "csv"@,
            Constructor::Ws => "ws"@,
            Constructor::Sep => "sep"@,
            Constructor::Grid => "grid"@,
            Constructor::Block => "block"@,
            Constructor::Choice => "choice"@,
            Constructor::Optional => "optional"@,
            Constructor::Scan => "scan"@,
            Constructor::OneOf => "one_of"@,
            Constructor::Chars => "chars"@,
            Constructor::Matrix => "matrix"@,
            Constructor::Repeated => "repeated"@,
        }
    }

    pub fn keyword(self) -> (r: &'static str)
        ensures
            r@ == self.spec_keyword(),
    {
        match self {
            Constructor::Lines => "lines",
            Constructor::Sections => "sections",
            Constructor::Csv => "csv",
            Constructor::Ws => "ws",
            Constructor::Sep => "sep",
            Constructor::Grid => "grid",
            Constructor::Block => "block",
            Constructor::Choice => "choice",
            Constructor::Optional => "optional",
            Constructor::Scan => "scan",
            Constructor::OneOf => "one_of",
            Constructor::Chars => "chars",
            Constructor::Matrix => "matrix",
            Constructor::Repeated => "repeated",
        }
    }

    /// How many bytes the keyword takes.
    pub fn keyword_len(self) -> (r: u32)
        ensures
            r == self.spec_keyword().len(),
            r <= 8,
    {
        proof {
            lemma_keywords();
        }
        match self {
            Constructor::Lines => 5,
            Constructor::Sections => 8,
            Constructor::Csv => 3,
            Constructor::Ws => 2,
            Constructor::Sep => 3,
            Constructor::Grid => 4,
            Constructor::Block => 5,
            Constructor::Choice => 6,
            Constructor::Optional => 8,
            Constructor::Scan => 4,
            Constructor::OneOf => 6,
            Constructor::Chars => 5,
            Constructor::Matrix => 6,
            Constructor::Repeated => 8,
        }
    }

    /// The constructor written `word`, if there is one.
    pub open spec fn spec_from_keyword(word: Seq<char>) -> Option<Constructor> {
        if word == "lines"@ {
            Some(Constructor::Lines)
        } else if word == "sections"@ {
            Some(Constructor::Sections)
        } else if word == "csv"@ {
            Some(Constructor::Csv)
        } else if word == "ws"@ {
            Some(Constructor::Ws)
        } else if word == "sep"@ {
            Some(Constructor::Sep)
        } else if word == "grid"@ {
            Some(Constructor::Grid)
        } else if word == "block"@ {
            Some(Constructor::Block)
        } else if word == "choice"@ {
            Some(Constructor::Choice)
        } else if word == "optional"@ {
            Some(Constructor::Optional)
        } else if word == "scan"@ {
            Some(Constructor::Scan)
        } else if word == "one_of"@ {
            Some(Constructor::OneOf)
        } else if word == "chars"@ {
            Some(Constructor::Chars)
        } else if word == "matrix"@ {
            Some(Constructor::Matrix)
        } else if word == "repeated"@ {
            Some(Constructor::Repeated)
        } else {
            None
        }
    }

    pub fn from_keyword(word: &String) -> (r: Option<Constructor>)
        ensures
            r == Constructor::spec_from_keyword(word@),
    {
        if is(word, "lines") {
            Some(Constructor::Lines)
        } else if is(word, "sections") {
            Some(Constructor::Sections)
        } else if is(word, "csv") {
            Some(Constructor::Csv)
        } else if is(word, "ws") {
            Some(Constructor::Ws)
        } else if is(word, "sep") {
            Some(Constructor::Sep)
        } else if is(word, "grid") {
            Some(Constructor::Grid)
        } else if is(word, "block") {
            Some(Constructor::Block)
        } else if is(word, "choice") {
            Some(Constructor::Choice)
        } else if is(word, "optional") {
            Some(Constructor::Optional)
        } else if is(word, "scan") {
            Some(Constructor::Scan)
        } else if is(word, "one_of") {
            Some(Constructor::OneOf)
        } else if is(word, "chars") {
            Some(Constructor::Chars)
        } else if is(word, "matrix") {
            Some(Constructor::Matrix)
        } else if is(word, "repeated") {
            Some(Constructor::Repeated)
        } else {
            None
        }
    }

    /// The `name:` argument whose value is not a parser.
    pub open spec fn spec_keyword_arg(self) -> Option<Seq<char>> {
        match self {
            Constructor::Chars => Some("skip"@),
            Constructor::Grid => Some("fill"@),
            _ => None,
        }
    }

    pub fn keyword_arg(self) -> (r: Option<&'static str>)
        ensures
            match self.spec_keyword_arg() {
                Some(k) => r matches Some(x) && x@ == k,
                None => r is None,
            },
    {
        match self {
            Constructor::Chars => Some("skip"),
            Constructor::Grid => Some("fill"),
            _ => None,
        }
    }

    /// The bare word that is not a parser.
    pub open spec fn spec_flag_arg(self) -> Option<Seq<char>> {
        match self {
            Constructor::Grid => Some("ragged"@),
            _ => None,
        }
    }

    pub fn flag_arg(self) -> (r: Option<&'static str>)
        ensures
            match self.spec_flag_arg() {
                Some(k) => r matches Some(x) && x@ == k,
                None => r is None,
            },
    {
        match self {
            Constructor::Grid => Some("ragged"),
            _ => None,
        }
    }
}

/// Whether a string holds exactly `word`.
pub fn is(s: &String, word: &str) -> (r: bool)
    ensures
        r == (s@ == word@),
{
    *s == crate::source::text(word)
}

/// The lengths of the constructor keywords, and that no two are alike.
pub proof fn lemma_keywords()
    ensures
        "lines"@.len() == 5,
        "sections"@.len() == 8,
        "csv"@.len() == 3,
        "ws"@.len() == 2,
        "sep"@.len() == 3,
        "grid"@.len() == 4,
        "block"@.len() == 5,
        "choice"@.len() == 6,
        "optional"@.len() == 8,
        "scan"@.len() == 4,
        "one_of"@.len() == 6,
        "chars"@.len() == 5,
        "matrix"@.len() == 6,
        "repeated"@.len() == 8,
        "csv"@[0] == 'c',
        "sep"@[0] == 's',
        "grid"@[0] == 'g',
        "scan"@[0] == 's',
        "lines"@[0] == 'l',
        "block"@[0] == 'b',
        "chars"@[0] == 'c',
        "choice"@[0] == 'c',
        "one_of"@[0] == 'o',
        "matrix"@[0] == 'm',
        "sections"@[0] == 's',
        "optional"@[0] == 'o',
        "repeated"@[0] == 'r',
{
    reveal_strlit("lines");
    reveal_strlit("sections");
    reveal_strlit("csv");
    reveal_strlit("ws");
    reveal_strlit("sep");
    reveal_strlit("grid");
    reveal_strlit("block");
    reveal_strlit("choice");
    reveal_strlit("optional");
    reveal_strlit("scan");
    reveal_strlit("one_of");
    reveal_strlit("chars");
    reveal_strlit("matrix");
    reveal_strlit("repeated");
}

/// Reading a constructor's keyword gives the constructor back, and no other
/// word names one.
pub proof fn law_keywords_name_constructors(c: Constructor, word: Seq<char>)
    ensures
        Constructor::spec_from_keyword(c.spec_keyword()) == Some(c),
        Constructor::spec_from_keyword(word) == Some(c) <==> word == c.spec_keyword(),
{
    lemma_keywords();
}

/// One run of a backtick template.
#[derive(Debug)]
pub enum TemplatePart {
    /// Literal text, with the source it was decoded from.
    Literal { text: String, span: Span },
    /// `{name:parser}` or `{parser}`, both braces included in the span.
    Capture { name: Option<String>, name_span: Option<Span>, parser: ParserAst, span: Span },
}

/// One field of a `sections(name: P, ...)`.
#[derive(Debug)]
pub struct SectionItem {
    pub name: String,
    pub parser: ParserAst,
}

/// One item of a `block(...)`.
#[derive(Debug)]
pub enum BlockItem {
    Positional(ParserAst),
    Named { name: String, parser: ParserAst },
}

/// One case of a `choice(name: P, ...)`.
#[derive(Debug)]
pub struct ChoiceCase {
    pub name: String,
    pub parser: ParserAst,
}

/// The field that takes the remaining sections.
#[derive(Debug)]
pub struct RepeatedTail {
    pub name: String,
    pub parser: Box<ParserAst>,
}

/// A parser expression.
#[derive(Debug)]
pub enum ParserAst {
    Atomic { kind: AtomicKind, span: Span },
    Template { parts: Vec<TemplatePart>, span: Span },
    Lines { child: Box<ParserAst>, span: Span },
    Sections { child: Box<ParserAst>, span: Span },
    SectionsNamed { fields: Vec<SectionItem>, repeated_tail: Option<RepeatedTail>, span: Span },
    Csv { child: Box<ParserAst>, span: Span },
    Ws { child: Box<ParserAst>, span: Span },
    Sep { sep: String, child: Box<ParserAst>, span: Span },
    Grid { child: Box<ParserAst>, span: Span },
    GridRagged { child: Box<ParserAst>, fill: String, span: Span },
    Block { items: Vec<BlockItem>, span: Span },
    Choice { cases: Vec<ChoiceCase>, span: Span },
    Optional { child: Box<ParserAst>, span: Span },
    Scan { child: Box<ParserAst>, span: Span },
    OneOf { set: String, span: Span },
    Characters { child: Box<ParserAst>, skip: Option<String>, span: Span },
    Matrix { child: Box<ParserAst>, span: Span },
}

impl ParserAst {
    /// The source the node covers.
    pub open spec fn spec_span(self) -> Span {
        match self {
            ParserAst::Atomic { span, .. }
            | ParserAst::Template { span, .. }
            | ParserAst::Lines { span, .. }
            | ParserAst::Sections { span, .. }
            | ParserAst::SectionsNamed { span, .. }
            | ParserAst::Csv { span, .. }
            | ParserAst::Ws { span, .. }
            | ParserAst::Sep { span, .. }
            | ParserAst::Grid { span, .. }
            | ParserAst::GridRagged { span, .. }
            | ParserAst::Block { span, .. }
            | ParserAst::Choice { span, .. }
            | ParserAst::Optional { span, .. }
            | ParserAst::Scan { span, .. }
            | ParserAst::OneOf { span, .. }
            | ParserAst::Characters { span, .. }
            | ParserAst::Matrix { span, .. } => span,
        }
    }

    pub fn span(&self) -> (r: Span)
        ensures
            r == self.spec_span(),
    {
        match self {
            ParserAst::Atomic { span, .. }
            | ParserAst::Template { span, .. }
            | ParserAst::Lines { span, .. }
            | ParserAst::Sections { span, .. }
            | ParserAst::SectionsNamed { span, .. }
            | ParserAst::Csv { span, .. }
            | ParserAst::Ws { span, .. }
            | ParserAst::Sep { span, .. }
            | ParserAst::Grid { span, .. }
            | ParserAst::GridRagged { span, .. }
            | ParserAst::Block { span, .. }
            | ParserAst::Choice { span, .. }
            | ParserAst::Optional { span, .. }
            | ParserAst::Scan { span, .. }
            | ParserAst::OneOf { span, .. }
            | ParserAst::Characters { span, .. }
            | ParserAst::Matrix { span, .. } => *span,
        }
    }
}

} // verus!
