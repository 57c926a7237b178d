//! Inference, on whole programs.
//!
//! A small reader turns program text into the syntax tree the library takes.
use praxis_hir::analysis::{
    analyze_root, Analysis, MethodEntry, MethodLowering, MethodRow, Prelude,
};
use praxis_hir::ast::{
    AssignToken, BinToken, Block, EnumItem, Expr, ExprKind, FieldDecl, FieldInit, FieldPattern,
    FnItem, Ident, InterpPart, LitToken, MatchArm, Param, ParserBody, Pattern, PatternKind,
    PlaceAssignOp, PlanId,
    SourceFile, Stmt, StmtKind, Store, StructItem, TopLevel, TypeExpr, TypeExprKind, UnaryToken,
    VariantDecl,
};
use praxis_hir::descend::{descendants, Seen};
use praxis_hir::lower::{entry_point, lower, ENTRY_NAME};
use praxis_hir::mono::monomorphize;
use praxis_hir::name_table::NameTable;
use praxis_hir::parser_ast::{
    AtomicKind, BlockItem, ChoiceCase, Constructor, ParserAst, SectionItem, TemplatePart,
};
use praxis_hir::parser_index::{ParserIndex, ParserMode};
use praxis_hir::parser_lower::{
    convert_parser_expr, finish_call, synthesize_parser_type, ArgNode, CallArg, CallNode,
    ConvertStep, Converted, ParserNode, TailResult, TemplateNode, ValidationError, ValueNode,
};
use praxis_hir::source::{DiagCode, Diagnostic, FileId, Severity, Span};
use praxis_hir::symbol::{Symbol, SymbolId, SymbolKind};
use praxis_hir::infer::{ctor_named, plain_type};
use praxis_hir::tables::{NodeKey, SyntaxKind};
use praxis_hir::tree::{
    expr_span, expr_ty, stmt_exprs, stmt_exprs_mut, stmt_span, CaptureKind, Lit, Purity, RuntimeSymbol, TypedBlock,
    TypedExpr, TypedFn, TypedItem, TypedModule, TypedPattern,
    TypedStmt,
};
use praxis_hir::typedb::{
    Capability, EnumDef, FieldDef, Need, RecordDef, Scheme, TypeDb, VariantDef,
};
use praxis_hir::types::{
    CollectionCtor, EnumDefId, RecordDefId, ScalarType, Type, TypeList,
};

// ---------------------------------------------------------------------------
// Reading programs
// ---------------------------------------------------------------------------

#[derive(Clone, Debug, PartialEq)]
enum Tok {
    Name(String),
    Int(String),
    Float(String),
    Text(String),
    Char(String),
    Template(String),
    Op(&'static str),
    End,
}

#[derive(Clone, Debug)]
struct Lexed {
    tok: Tok,
    start: u32,
    end: u32,
    /// Whether a line ended before the token.
    fresh_line: bool,
}

const OPS: [&str; 38] = [
    "..=", "...", "..", "->", "=>", "==", "!=", "<=", ">=", "&&", "||", "+=", "-=", "*=", "/=",
    "%=", "=", "<", ">", "+", "-", "*", "/", "%", "!", "|", "(", ")", "[", "]", "{", "}", ",", ":",
    ";", ".", "&", "?",
];

/// The end of a text literal whose opening quote is at `i`.
fn text_end(src: &str, i: usize) -> usize {
    let b = src.as_bytes();
    let mut j = i + 1;
    let mut depth = 0;
    while j < b.len() {
        if depth == 0 && b[j] == b'"' {
            return j + 1;
        }
        match b[j] {
            b'\\' => j += 1,
            b'{' => depth += 1,
            b'}' if depth > 0 => depth -= 1,
            b'"' => {
                j = text_end(src, j);
                continue;
            }
            _ => {}
        }
        j += 1;
    }
    j
}

fn lex(src: &str, from: usize, to: usize) -> Vec<Lexed> {
    let b = src.as_bytes();
    let mut out = Vec::new();
    let mut i = from;
    let mut fresh_line = false;
    while i < to {
        let c = b[i];
        if c == b'\n' {
            fresh_line = true;
            i += 1;
            continue;
        }
        if c.is_ascii_whitespace() {
            i += 1;
            continue;
        }
        if src[i..].starts_with("//") {
            while i < to && b[i] != b'\n' {
                i += 1;
            }
            continue;
        }
        let start = i;
        let tok = if c.is_ascii_alphabetic() || c == b'_' {
            while i < to && (b[i].is_ascii_alphanumeric() || b[i] == b'_') {
                i += 1;
            }
            Tok::Name(src[start..i].to_string())
        } else if c.is_ascii_digit() {
            while i < to && (b[i].is_ascii_digit() || b[i] == b'_') {
                i += 1;
            }
            let element = matches!(out.last(), Some(Lexed { tok: Tok::Op("."), .. }));
            if !element && i + 1 < to && b[i] == b'.' && b[i + 1].is_ascii_digit() {
                i += 1;
                while i < to && b[i].is_ascii_digit() {
                    i += 1;
                }
                Tok::Float(src[start..i].to_string())
            } else {
                Tok::Int(src[start..i].to_string())
            }
        } else if c == b'"' {
            i = text_end(src, i).min(to);
            Tok::Text(src[start..i].to_string())
        } else if c == b'\'' {
            i += 1;
            while i < to && b[i] != b'\'' {
                i += if b[i] == b'\\' { 2 } else { 1 };
            }
            i += 1;
            Tok::Char(src[start + 1..i - 1].to_string())
        } else if c == b'`' {
            i += 1;
            while i < to && b[i] != b'`' {
                i += if b[i] == b'\\' { 2 } else { 1 };
            }
            i += 1;
            Tok::Template(src[start..i].to_string())
        } else {
            let op = OPS
                .iter()
                .find(|o| src[i..].starts_with(**o))
                .unwrap_or_else(|| panic!("unexpected character at {i} in {src}"));
            i += op.len();
            Tok::Op(op)
        };
        out.push(Lexed { tok, start: start as u32, end: i as u32, fresh_line });
        fresh_line = false;
    }
    out.push(Lexed { tok: Tok::End, start: to as u32, end: to as u32, fresh_line: true });
    out
}

fn unescape(s: &str) -> String {
    let mut out = String::new();
    let mut it = s.chars();
    while let Some(c) = it.next() {
        if c != '\\' {
            out.push(c);
            continue;
        }
        match it.next() {
            Some('n') => out.push('\n'),
            Some('t') => out.push('\t'),
            Some('r') => out.push('\r'),
            Some('0') => out.push('\0'),
            Some(c) => out.push(c),
            None => {}
        }
    }
    out
}

struct Reader<'a> {
    src: &'a str,
    toks: Vec<Lexed>,
    pos: usize,
    /// Whether `Name {` is a record literal here.
    records: bool,
    errors: Vec<String>,
    /// The record types that templates produce.
    shapes: Vec<RecordDef>,
    /// The enum types that choices produce.
    choices: Vec<EnumDef>,
}

impl<'a> Reader<'a> {
    fn new(src: &'a str, from: usize, to: usize) -> Reader<'a> {
        Reader {
            src,
            toks: lex(src, from, to),
            pos: 0,
            records: true,
            errors: Vec::new(),
            shapes: Vec::new(),
            choices: Vec::new(),
        }
    }

    fn peek(&self) -> &Tok {
        &self.toks[self.pos].tok
    }

    fn peek_at(&self, n: usize) -> &Tok {
        &self.toks[(self.pos + n).min(self.toks.len() - 1)].tok
    }

    fn start(&self) -> u32 {
        self.toks[self.pos].start
    }

    fn last_end(&self) -> u32 {
        if self.pos == 0 {
            0
        } else {
            self.toks[self.pos - 1].end
        }
    }

    fn span_from(&self, start: u32) -> Span {
        Span::new(start, self.last_end())
    }

    fn fresh_line(&self) -> bool {
        self.toks[self.pos].fresh_line
    }

    fn advance(&mut self) {
        if self.pos + 1 < self.toks.len() {
            self.pos += 1;
        }
    }

    fn at(&self, op: &str) -> bool {
        *self.peek() == Tok::Op(OPS.iter().copied().find(|o| *o == op).unwrap())
    }

    fn at_word(&self, w: &str) -> bool {
        matches!(self.peek(), Tok::Name(n) if n == w)
    }

    fn eat(&mut self, op: &str) -> bool {
        let yes = self.at(op);
        if yes {
            self.advance();
        }
        yes
    }

    fn eat_word(&mut self, w: &str) -> bool {
        let yes = self.at_word(w);
        if yes {
            self.advance();
        }
        yes
    }

    fn want(&mut self, op: &str) {
        if !self.eat(op) {
            panic!("expected `{op}` at {} in {}", self.start(), self.src);
        }
    }

    fn ident(&mut self) -> Ident {
        let range = Span::new(self.start(), self.toks[self.pos].end);
        match self.peek().clone() {
            Tok::Name(text) => {
                self.advance();
                Ident { text, range }
            }
            other => panic!("expected a name, found {other:?} at {} in {}", self.start(), self.src),
        }
    }

    fn file(&mut self) -> SourceFile {
        let mut items = Vec::new();
        while *self.peek() != Tok::End {
            if self.eat(";") {
                continue;
            }
            items.push(self.item());
        }
        SourceFile { range: Span::new(0, self.src.len() as u32), items }
    }

    fn item(&mut self) -> TopLevel {
        let start = self.start();
        if self.eat_word("fn") {
            let name = self.ident();
            let params = self.params("(", ")");
            let result = if self.eat("->") { Some(self.ty()) } else { None };
            let body = self.block();
            return TopLevel::Fn(FnItem {
                range: self.span_from(start),
                name: Some(name),
                params,
                result,
                body: Some(body),
            });
        }
        if self.eat_word("struct") {
            let name = self.ident();
            let mut fields = Vec::new();
            self.want("{");
            while !self.eat("}") {
                let field = self.ident();
                self.want(":");
                fields.push(FieldDecl { name: Some(field), ty: Some(self.ty()) });
                self.eat(",");
            }
            return TopLevel::Struct(StructItem {
                range: self.span_from(start),
                name: Some(name),
                fields,
            });
        }
        if self.eat_word("enum") {
            let name = self.ident();
            let mut variants = Vec::new();
            self.want("{");
            while !self.eat("}") {
                let variant = self.ident();
                let payload = if self.at("(") { self.types("(", ")") } else { Vec::new() };
                variants.push(VariantDecl { name: Some(variant), payload });
                self.eat(",");
            }
            return TopLevel::Enum(EnumItem {
                range: self.span_from(start),
                name: Some(name),
                variants,
            });
        }
        TopLevel::Stmt(self.stmt())
    }

    fn params(&mut self, open: &str, close: &str) -> Vec<Param> {
        let mut out = Vec::new();
        self.want(open);
        while !self.eat(close) {
            let start = self.start();
            let mut p = Param { name: None, wildcard: None, pattern: None, annotation: None };
            if self.eat_word("_") {
                p.wildcard = Some(self.span_from(start));
            } else if matches!(self.peek(), Tok::Name(_))
                && (*self.peek_at(1) == Tok::Op(",")
                    || *self.peek_at(1) == Tok::Op(":")
                    || self.closes(close))
            {
                p.name = Some(self.ident());
            } else {
                p.pattern = Some(self.pattern());
            }
            if self.eat(":") {
                p.annotation = Some(self.ty());
            }
            out.push(p);
            self.eat(",");
        }
        out
    }

    fn closes(&self, close: &str) -> bool {
        matches!(self.peek_at(1), Tok::Op(o) if *o == close)
    }

    fn types(&mut self, open: &str, close: &str) -> Vec<TypeExpr> {
        let mut out = Vec::new();
        self.want(open);
        while !self.eat(close) {
            out.push(self.ty());
            self.eat(",");
        }
        out
    }

    fn ty(&mut self) -> TypeExpr {
        let start = self.start();
        let kind = if self.at("(") {
            let parts = self.types("(", ")");
            if self.eat("->") {
                let result = self.ty();
                TypeExprKind::Func(parts, Some(Box::new(result)))
            } else {
                TypeExprKind::Tuple(parts)
            }
        } else {
            let name = self.ident();
            let args = if self.at("[") { self.types("[", "]") } else { Vec::new() };
            TypeExprKind::Name(name, args)
        };
        TypeExpr { range: self.span_from(start), kind }
    }

    fn block(&mut self) -> Block {
        let start = self.start();
        let records = self.records;
        self.records = true;
        self.want("{");
        let mut stmts = Vec::new();
        while !self.eat("}") {
            if self.eat(";") {
                continue;
            }
            stmts.push(self.stmt());
        }
        self.records = records;
        Block { range: self.span_from(start), stmts }
    }

    fn stmt(&mut self) -> Stmt {
        let start = self.start();
        if self.at_word("fn") || self.at_word("struct") || self.at_word("enum") {
            let _ = self.item();
            return Stmt { range: self.span_from(start), kind: StmtKind::Other };
        }
        if self.eat_word("var") {
            let name = self.ident();
            let annotation = if self.eat(":") { Some(self.ty()) } else { None };
            let init = if self.eat("=") { Some(Box::new(self.expr())) } else { None };
            return Stmt {
                range: self.span_from(start),
                kind: StmtKind::Var { name: Some(name), annotation, init },
            };
        }
        let e = self.expr();
        let op = match self.peek() {
            Tok::Op(o) => *o,
            _ => "",
        };
        if let Some(update) = self.update() {
            self.advance();
            self.advance();
            let value = Some(Box::new(self.expr()));
            return Stmt {
                range: self.span_from(start),
                kind: StmtKind::PlaceAssign(Store {
                    target: Some(Box::new(e)),
                    op: update,
                    value,
                }),
            };
        }
        let (assign, place) = match op {
            "=" => (AssignToken::Eq, PlaceAssignOp::Store),
            "+=" => (AssignToken::PlusEq, PlaceAssignOp::Plus),
            "-=" => (AssignToken::MinusEq, PlaceAssignOp::Minus),
            "*=" => (AssignToken::StarEq, PlaceAssignOp::Times),
            "/=" => (AssignToken::SlashEq, PlaceAssignOp::Div),
            "%=" => (AssignToken::PercentEq, PlaceAssignOp::Rem),
            _ => {
                return Stmt {
                    range: self.span_from(start),
                    kind: StmtKind::Expr(Some(Box::new(e))),
                }
            }
        };
        self.advance();
        let value = Some(Box::new(self.expr()));
        let range = self.span_from(start);
        let kind = match e.kind {
            ExprKind::Path(name) => StmtKind::Assign { name, op: Some(assign), value },
            kind => StmtKind::PlaceAssign(Store {
                target: Some(Box::new(Expr { range: e.range, kind })),
                op: place,
                value,
            }),
        };
        Stmt { range, kind }
    }

    /// The update a `min=` or a `max=` stands for.
    fn update(&self) -> Option<PlaceAssignOp> {
        let op = match self.peek() {
            Tok::Name(n) if n == "min" => PlaceAssignOp::Min,
            Tok::Name(n) if n == "max" => PlaceAssignOp::Max,
            _ => return None,
        };
        let joined = *self.peek_at(1) == Tok::Op("=")
            && self.toks[self.pos].end == self.toks[self.pos + 1].start;
        if joined && !self.fresh_line() {
            Some(op)
        } else {
            None
        }
    }

    fn expr(&mut self) -> Expr {
        let start = self.start();
        let left = self.binary(0);
        if self.at("..") || self.at("..=") {
            let inclusive = self.at("..=");
            self.advance();
            let right = self.binary(0);
            return Expr {
                range: self.span_from(start),
                kind: ExprKind::Range {
                    start: Some(Box::new(left)),
                    end: Some(Box::new(right)),
                    inclusive,
                },
            };
        }
        left
    }

    /// An expression where a `{` starts the body that follows.
    fn head(&mut self) -> Expr {
        let records = self.records;
        self.records = false;
        let e = self.expr();
        self.records = records;
        e
    }

    fn operator(&self) -> Option<(u8, BinToken)> {
        if self.fresh_line() {
            return None;
        }
        match self.peek() {
            Tok::Op(o) => match *o {
                "||" => Some((1, BinToken::Pipe2)),
                "&&" => Some((2, BinToken::Amp2)),
                "==" => Some((3, BinToken::Eq2)),
                "!=" => Some((3, BinToken::Neq)),
                "<" => Some((4, BinToken::Lt)),
                ">" => Some((4, BinToken::Gt)),
                "<=" => Some((4, BinToken::LtEq)),
                ">=" => Some((4, BinToken::GtEq)),
                "+" => Some((5, BinToken::Plus)),
                "-" => Some((5, BinToken::Minus)),
                "*" => Some((6, BinToken::Star)),
                "/" => Some((6, BinToken::Slash)),
                "%" => Some((6, BinToken::Percent)),
                _ => None,
            },
            _ => None,
        }
    }

    fn binary(&mut self, floor: u8) -> Expr {
        let start = self.start();
        let mut left = self.unary();
        while let Some((level, op)) = self.operator() {
            if level <= floor {
                break;
            }
            self.advance();
            let right = self.binary(level);
            left = Expr {
                range: self.span_from(start),
                kind: ExprKind::Bin {
                    lhs: Some(Box::new(left)),
                    op: Some(op),
                    rhs: Some(Box::new(right)),
                },
            };
        }
        left
    }

    fn unary(&mut self) -> Expr {
        let start = self.start();
        let op = if self.at("-") {
            UnaryToken::Minus
        } else if self.at("!") {
            UnaryToken::Bang
        } else {
            return self.postfix();
        };
        self.advance();
        let operand = Some(Box::new(self.unary()));
        Expr { range: self.span_from(start), kind: ExprKind::Unary { op: Some(op), operand } }
    }

    fn args(&mut self, close: &str) -> Vec<Expr> {
        let records = self.records;
        self.records = true;
        let mut out = Vec::new();
        self.advance();
        while !self.eat(close) {
            out.push(self.expr());
            self.eat(",");
        }
        self.records = records;
        out
    }

    fn postfix(&mut self) -> Expr {
        let start = self.start();
        let mut e = self.primary();
        loop {
            if self.at("(") && !self.fresh_line() {
                let args = self.args(")");
                e = Expr {
                    range: self.span_from(start),
                    kind: ExprKind::Call {
                        callee: None,
                        type_args: Vec::new(),
                        callee_expr: Some(Box::new(e)),
                        args,
                    },
                };
            } else if self.at("[") && !self.fresh_line() {
                let indices = self.args("]");
                e = Expr {
                    range: self.span_from(start),
                    kind: ExprKind::Index { receiver: Some(Box::new(e)), indices },
                };
            } else if self.at(".") {
                self.advance();
                let receiver = Some(Box::new(e));
                let kind = match self.peek().clone() {
                    Tok::Int(n) => {
                        self.advance();
                        ExprKind::TupleIndex { receiver, index: n.parse().ok() }
                    }
                    _ => {
                        let name = Some(self.ident());
                        if self.at("(") {
                            ExprKind::MethodCall { receiver, name, args: self.args(")") }
                        } else {
                            ExprKind::FieldGet { receiver, name }
                        }
                    }
                };
                e = Expr { range: self.span_from(start), kind };
            } else {
                return e;
            }
        }
    }

    fn primary(&mut self) -> Expr {
        let start = self.start();
        let kind = self.primary_kind();
        Expr { range: self.span_from(start), kind }
    }

    fn starts_value(&self) -> bool {
        !self.fresh_line()
            && !matches!(self.peek(), Tok::End | Tok::Op("}") | Tok::Op(";") | Tok::Op(")")
                | Tok::Op(","))
    }

    fn primary_kind(&mut self) -> ExprKind {
        match self.peek().clone() {
            Tok::Int(digits) => {
                self.advance();
                let value = digits.replace('_', "").parse::<i64>().ok();
                ExprKind::Literal(Some(LitToken::Int(value, digits)))
            }
            Tok::Float(digits) => {
                self.advance();
                let value: f64 = digits.parse().unwrap();
                ExprKind::Literal(Some(LitToken::Float(value.to_bits())))
            }
            Tok::Char(inner) => {
                self.advance();
                let c = unescape(&inner).chars().next().map(|c| c as u32);
                ExprKind::Literal(Some(LitToken::Char(c)))
            }
            Tok::Text(_) => self.text(),
            Tok::Template(_) => {
                self.advance();
                ExprKind::Literal(Some(LitToken::Template))
            }
            Tok::Op("(") => {
                let records = self.records;
                self.records = true;
                self.advance();
                let mut parts = Vec::new();
                let mut comma = false;
                while !self.eat(")") {
                    parts.push(self.expr());
                    comma = self.eat(",") || comma;
                }
                self.records = records;
                if parts.len() == 1 && !comma {
                    ExprKind::Paren(parts.pop().map(Box::new))
                } else {
                    ExprKind::Tuple(parts)
                }
            }
            Tok::Op("[") => ExprKind::List(self.args("]")),
            Tok::Op("{") => ExprKind::Block(self.block()),
            Tok::Op("|") => {
                let params = self.params("|", "|");
                ExprKind::Closure { params, body: Some(Box::new(self.expr())) }
            }
            Tok::Op("||") => {
                self.advance();
                ExprKind::Closure { params: Vec::new(), body: Some(Box::new(self.expr())) }
            }
            Tok::Name(word) => self.word(&word),
            other => panic!("unexpected {other:?} at {} in {}", self.start(), self.src),
        }
    }

    fn word(&mut self, word: &str) -> ExprKind {
        match word {
            "true" => {
                self.advance();
                ExprKind::Literal(Some(LitToken::True))
            }
            "false" => {
                self.advance();
                ExprKind::Literal(Some(LitToken::False))
            }
            "if" => {
                self.advance();
                let cond = Some(Box::new(self.head()));
                let then_branch = Some(self.block());
                let else_branch = if self.eat_word("else") {
                    let start = self.start();
                    let kind = if self.at_word("if") {
                        self.word("if")
                    } else {
                        ExprKind::Block(self.block())
                    };
                    Some(Box::new(Expr { range: self.span_from(start), kind }))
                } else {
                    None
                };
                ExprKind::If { cond, then_branch, else_branch }
            }
            "while" => {
                self.advance();
                let cond = Some(Box::new(self.head()));
                ExprKind::While { cond, body: Some(self.block()) }
            }
            "for" => {
                self.advance();
                let binding = Some(self.pattern());
                if !self.eat_word("in") {
                    panic!("expected `in` in {}", self.src);
                }
                let iter = Some(Box::new(self.head()));
                ExprKind::For { binding, iter, body: Some(self.block()) }
            }
            "loop" => {
                self.advance();
                ExprKind::Loop { body: Some(self.block()) }
            }
            "break" => {
                self.advance();
                let value = if self.starts_value() { Some(Box::new(self.expr())) } else { None };
                ExprKind::Break(value)
            }
            "continue" => {
                self.advance();
                ExprKind::Continue
            }
            "return" => {
                self.advance();
                let value = if self.starts_value() { Some(Box::new(self.expr())) } else { None };
                ExprKind::Return(value)
            }
            "match" => {
                self.advance();
                let scrutinee = Some(Box::new(self.head()));
                let records = self.records;
                self.records = true;
                self.want("{");
                let mut arms = Vec::new();
                while !self.eat("}") {
                    let pattern = Some(self.pattern());
                    self.want("=>");
                    arms.push(MatchArm { pattern, body: Some(Box::new(self.expr())) });
                    self.eat(",");
                }
                self.records = records;
                ExprKind::Match { scrutinee, arms }
            }
            "read" if !matches!(self.peek_at(1), Tok::Op("(" | "=" | ",")) => {
                self.advance();
                ExprKind::Read(Some(self.parser_body()))
            }
            "parse" if *self.peek_at(1) == Tok::Op("(") => {
                self.advance();
                self.advance();
                let text = Some(Box::new(self.expr()));
                self.want(",");
                let parser = Some(self.parser_body());
                self.want(")");
                ExprKind::Parse { text, parser }
            }
            _ => self.named(),
        }
    }

    /// A parser expression, converted.
    fn parser_body(&mut self) -> ParserBody {
        let start = self.start();
        let converted = self.parser_expr();
        let range = self.span_from(start);
        let mut reports = converted.reports;
        let plan_reports = reports.iter().map(Diagnostic::dup).collect();
        let mut index: Vec<ParserIndex> = Vec::new();
        let synthesized = match &converted.ast {
            Some(ast) => {
                let mut types = Vec::new();
                let ty = synthesize(ast, &mut self.shapes, &mut self.choices, &mut types);
                Ok((ty, types))
            }
            None => Err(String::new()),
        };
        let result_type = synthesize_parser_type(
            FileId(0),
            range,
            converted.ast,
            synthesized,
            &mut reports,
            &mut index,
        );
        let plan = result_type.as_ref().map(|_| PlanId(0));
        ParserBody { range, plan, result_type, index: index.pop(), reports, plan_reports }
    }

    fn parser_expr(&mut self) -> Converted {
        let start = self.start();
        let node = match self.peek().clone() {
            Tok::Template(text) => {
                self.advance();
                let range = self.span_from(start);
                let base = range.start as usize + 1;
                let scanned = Ok(scan(self.src, base, range.end as usize - 1));
                ParserNode::Template(Some(TemplateNode { text, range, scanned }))
            }
            Tok::Name(_) => {
                let name = self.ident();
                if self.at("(") {
                    self.advance();
                    let mut args = Vec::new();
                    while !self.eat(")") {
                        args.push(self.parser_arg());
                        self.eat(",");
                    }
                    ParserNode::Call(Some(CallNode {
                        near: nearest(&name.text),
                        name: name.text,
                        name_range: Some(name.range),
                        args,
                    }))
                } else {
                    ParserNode::Atom {
                        kind: atomic(&name.text),
                        near: nearest(&name.text),
                        text: name.text,
                    }
                }
            }
            _ => {
                self.advance();
                ParserNode::Unknown
            }
        };
        let range = self.span_from(start);
        let mut reports = Vec::new();
        let ast = match convert_parser_expr(FileId(0), range, node, &mut reports) {
            ConvertStep::Done(ast) => ast,
            ConvertStep::Build { constructor, args, range } => {
                let built = build(constructor, args, range);
                finish_call(FileId(0), built, &mut reports)
            }
        };
        Converted { ast, reports }
    }

    /// A literal where an argument of a parser may be one: its token and, for a
    /// text, what it is a text of.
    fn parser_literal(&mut self) -> Option<(String, Option<String>)> {
        let found = match self.peek().clone() {
            Tok::Int(n) => (n, None),
            Tok::Text(t) => {
                let inner = unescape(&t[1..t.len() - 1]);
                (t, Some(inner))
            }
            _ => return None,
        };
        self.advance();
        Some(found)
    }

    fn parser_word(&self) -> Option<String> {
        match self.peek().clone() {
            Tok::Name(n) if !matches!(self.peek_at(1), Tok::Op("(")) => Some(n),
            _ => None,
        }
    }

    fn parser_arg(&mut self) -> ArgNode {
        let start = self.start();
        if let Some((raw, text)) = self.parser_literal() {
            let number = raw.parse().ok();
            return ArgNode::Literal { range: self.span_from(start), raw, number, text };
        }
        if matches!(self.peek(), Tok::Name(_)) && *self.peek_at(1) == Tok::Op(":") {
            let name = Some(self.ident().text);
            self.advance();
            if let Some((raw, text)) = self.parser_literal() {
                let literal = Some(text.unwrap_or(raw));
                return ArgNode::Named { range: self.span_from(start), name, literal, value: None };
            }
            let text = self.parser_word();
            let constructor = match self.peek().clone() {
                Tok::Name(n) if text.is_none() => Some(n),
                _ => None,
            };
            let converted = self.parser_expr();
            let value = Some(ValueNode {
                text,
                constructor,
                converted,
                tail_reports: Vec::new(),
                tail: TailResult::Unconverted,
            });
            return ArgNode::Named { range: self.span_from(start), name, literal: None, value };
        }
        let text = self.parser_word();
        let names_parser = text.as_ref().is_some_and(|t| atomic(t).is_some());
        let converted = self.parser_expr();
        ArgNode::Expr { range: self.span_from(start), text, names_parser, converted }
    }

    /// A name, a call of a name, or a record literal.
    fn named(&mut self) -> ExprKind {
        let name = self.ident();
        let collection = [
            "Vec", "Deque", "Map", "Set", "Counter", "MinHeap", "MaxHeap", "BitSet", "Grid",
        ]
        .contains(&name.text.as_str());
        if collection && self.at("[") {
            let type_args = self.types("[", "]");
            let args = self.args(")");
            return ExprKind::Call { callee: Some(name), type_args, callee_expr: None, args };
        }
        if self.at("(") && !self.fresh_line() {
            let args = self.args(")");
            return ExprKind::Call {
                callee: Some(name),
                type_args: Vec::new(),
                callee_expr: None,
                args,
            };
        }
        if self.records && self.at("{")
            && (name.text.starts_with(|c: char| c.is_uppercase())
                || *self.peek_at(2) == Tok::Op(":"))
        {
            self.advance();
            let mut fields = Vec::new();
            while !self.eat("}") {
                let field = self.ident();
                let expr = if self.eat(":") { Some(Box::new(self.expr())) } else { None };
                fields.push(FieldInit { name: Some(field), expr });
                self.eat(",");
            }
            return ExprKind::RecordLit { head: Some(name), fields };
        }
        ExprKind::Path(Some(name))
    }

    fn text(&mut self) -> ExprKind {
        let (start, end) = (self.start() as usize + 1, self.toks[self.pos].end as usize - 1);
        self.advance();
        let b = self.src.as_bytes();
        let mut parts = Vec::new();
        let mut piece = start;
        let mut i = start;
        let mut holes = false;
        while i < end {
            if b[i] == b'\\' {
                i += 2;
                continue;
            }
            if b[i] != b'{' {
                i += 1;
                continue;
            }
            holes = true;
            parts.push(InterpPart::Fragment(unescape(&self.src[piece..i])));
            let mut depth = 1;
            let mut j = i + 1;
            while j < end && depth > 0 {
                match b[j] {
                    b'{' => depth += 1,
                    b'}' => depth -= 1,
                    _ => {}
                }
                j += 1;
            }
            let mut inner = Reader::new(self.src, i + 1, j - 1);
            parts.push(InterpPart::Hole(inner.expr()));
            i = j;
            piece = j;
        }
        if holes {
            parts.push(InterpPart::Fragment(unescape(&self.src[piece..end])));
            ExprKind::Interp(parts)
        } else {
            ExprKind::Literal(Some(LitToken::Text(unescape(&self.src[start..end]))))
        }
    }

    fn pattern(&mut self) -> Pattern {
        let start = self.start();
        let kind = match self.peek().clone() {
            Tok::Name(n) if n == "_" => {
                self.advance();
                PatternKind::Wildcard
            }
            Tok::Name(n) if n == "true" || n == "false" => {
                self.advance();
                PatternKind::Literal(Some(if n == "true" {
                    LitToken::True
                } else {
                    LitToken::False
                }))
            }
            Tok::Name(_) => {
                let name = self.ident();
                if self.at("(") {
                    PatternKind::Variant(name, self.patterns())
                } else if self.at("{") {
                    let fields = self.field_patterns();
                    PatternKind::Record(Some(name), fields)
                } else {
                    PatternKind::Name(name)
                }
            }
            Tok::Op("(") => PatternKind::Tuple(self.patterns()),
            Tok::Op("{") => {
                let fields = self.field_patterns();
                if fields.is_empty() {
                    self.errors.push("P001: expected a pattern".to_string());
                }
                PatternKind::Record(None, fields)
            }
            _ => match self.unary().kind {
                ExprKind::Literal(tok) => PatternKind::Literal(tok),
                _ => panic!("unexpected pattern at {start} in {}", self.src),
            },
        };
        Pattern { range: self.span_from(start), kind }
    }

    fn patterns(&mut self) -> Vec<Pattern> {
        let mut out = Vec::new();
        self.want("(");
        while !self.eat(")") {
            out.push(self.pattern());
            self.eat(",");
        }
        out
    }

    fn field_patterns(&mut self) -> Vec<FieldPattern> {
        let mut out = Vec::new();
        self.want("{");
        while !self.eat("}") {
            let name = self.ident();
            let pattern = if self.eat(":") { Some(self.pattern()) } else { None };
            out.push(FieldPattern { name: Some(name), pattern });
            self.eat(",");
        }
        out
    }
}

// ---------------------------------------------------------------------------
// A small table of parsers
// ---------------------------------------------------------------------------

const ATOMICS: [&str; 5] = ["int", "word", "char", "text", "float"];

fn atomic(word: &str) -> Option<AtomicKind> {
    ATOMICS.iter().position(|a| *a == word).map(|i| AtomicKind(i as u16))
}

/// The parser whose name has the same letters but one.
fn nearest(word: &str) -> Option<String> {
    let near = |a: &&&str| {
        a.len() == word.len() && a.chars().zip(word.chars()).filter(|(x, y)| x != y).count() == 1
    };
    ATOMICS.iter().find(near).map(|a| a.to_string())
}

/// The parts of a template's interior: `{parser}` and `{name:parser}` captures,
/// and the text around them.
fn scan(src: &str, from: usize, to: usize) -> Vec<TemplatePart> {
    let b = src.as_bytes();
    let span = |a: usize, z: usize| Span::new(a as u32, z as u32);
    let mut parts = Vec::new();
    let mut piece = from;
    let mut i = from;
    while i < to {
        if b[i] == b'\\' {
            i += 2;
            continue;
        }
        if b[i] != b'{' {
            i += 1;
            continue;
        }
        if piece < i {
            let text = unescape(&src[piece..i]);
            parts.push(TemplatePart::Literal { text, span: span(piece, i) });
        }
        let end = i + src[i..].find('}').unwrap() + 1;
        let inner = &src[i + 1..end - 1];
        let (name, name_span, word_at) = match inner.find(':') {
            Some(k) => {
                let name = inner[..k].trim();
                let at = i + 1 + inner.find(name).unwrap();
                (Some(name.to_string()), Some(span(at, at + name.len())), i + 2 + k)
            }
            None => (None, None, i + 1),
        };
        let parser = ParserAst::Atomic {
            kind: atomic(src[word_at..end - 1].trim()).unwrap(),
            span: span(word_at, end - 1),
        };
        parts.push(TemplatePart::Capture { name, name_span, parser, span: span(i, end) });
        i = end;
        piece = end;
    }
    if piece < to {
        let text = unescape(&src[piece..to]);
        parts.push(TemplatePart::Literal { text, span: span(piece, to) });
    }
    parts
}

/// A constructor with its arguments.
fn build(
    constructor: Constructor,
    args: Vec<CallArg>,
    span: Span,
) -> Result<ParserAst, Vec<ValidationError>> {
    let wrong = || {
        Err(vec![ValidationError {
            code: DiagCode::InvalidConstructorArgument,
            message: format!("`{}` does not take these arguments", constructor.keyword()),
            span,
        }])
    };
    match constructor {
        Constructor::Sections if matches!(args.first(), Some(CallArg::Named { .. })) => {
            let mut fields = Vec::new();
            for arg in args {
                match arg {
                    CallArg::Named { name, parser } => fields.push(SectionItem { name, parser }),
                    _ => return wrong(),
                }
            }
            return Ok(ParserAst::SectionsNamed { fields, repeated_tail: None, span });
        }
        Constructor::Block => {
            let mut items = Vec::new();
            for arg in args {
                items.push(match arg {
                    CallArg::Parser(p) => BlockItem::Positional(p),
                    CallArg::Named { name, parser } => BlockItem::Named { name, parser },
                    _ => return wrong(),
                });
            }
            return Ok(ParserAst::Block { items, span });
        }
        Constructor::Choice => {
            let mut cases = Vec::new();
            for arg in args {
                match arg {
                    CallArg::Named { name, parser } => cases.push(ChoiceCase { name, parser }),
                    _ => return wrong(),
                }
            }
            return Ok(ParserAst::Choice { cases, span });
        }
        _ => {}
    }
    let mut child = None;
    let mut text = None;
    let mut keyword = None;
    for arg in args {
        match arg {
            CallArg::Parser(p) if child.is_none() => child = Some(Box::new(p)),
            CallArg::Text(t) if text.is_none() => text = Some(t),
            CallArg::Keyword { name, value } if keyword.is_none() => keyword = Some((name, value)),
            _ => return wrong(),
        }
    }
    Ok(match (constructor, child, text, keyword) {
        (Constructor::OneOf, None, Some(set), None) => ParserAst::OneOf { set, span },
        (Constructor::Chars, Some(child), None, keyword) => {
            ParserAst::Characters { child, skip: keyword.map(|k| k.1), span }
        }
        (Constructor::Lines, Some(child), None, None) => ParserAst::Lines { child, span },
        (Constructor::Sections, Some(child), None, None) => ParserAst::Sections { child, span },
        (Constructor::Csv, Some(child), None, None) => ParserAst::Csv { child, span },
        (Constructor::Ws, Some(child), None, None) => ParserAst::Ws { child, span },
        (Constructor::Grid, Some(child), None, None) => ParserAst::Grid { child, span },
        (Constructor::Optional, Some(child), None, None) => ParserAst::Optional { child, span },
        (Constructor::Scan, Some(child), None, None) => ParserAst::Scan { child, span },
        _ => return wrong(),
    })
}

fn scalar(kind: AtomicKind) -> Type {
    Type::Scalar(match ATOMICS[kind.0 as usize] {
        "int" => ScalarType::Int,
        "char" => ScalarType::Char,
        "float" => ScalarType::Float,
        _ => ScalarType::Text,
    })
}

/// The type a parser produces, and that of every parser below it.
fn synthesize(
    ast: &ParserAst,
    shapes: &mut Vec<RecordDef>,
    choices: &mut Vec<EnumDef>,
    types: &mut Vec<(Span, Type)>,
) -> Type {
    let of = |c: CollectionCtor, t: Type| Type::Collection(c, TypeList::from_vec(&vec![t]));
    let ty = match ast {
        ParserAst::Atomic { kind, .. } => scalar(*kind),
        ParserAst::OneOf { .. } => Type::Scalar(ScalarType::Char),
        ParserAst::Template { parts, .. } => {
            let mut fields = Vec::new();
            let mut items = Vec::new();
            for part in parts {
                if let TemplatePart::Capture { name, parser, .. } = part {
                    let ty = synthesize(parser, shapes, choices, types);
                    match name {
                        Some(name) => fields.push(FieldDef { name: name.clone(), ty }),
                        None => items.push(ty),
                    }
                }
            }
            if !fields.is_empty() {
                shape(shapes, fields)
            } else if items.is_empty() {
                Type::Unit
            } else if items.len() == 1 {
                items.pop().unwrap()
            } else {
                Type::Tuple(TypeList::from_vec(&items))
            }
        }
        ParserAst::Lines { child, .. }
        | ParserAst::Sections { child, .. }
        | ParserAst::Csv { child, .. }
        | ParserAst::Scan { child, .. }
        | ParserAst::Characters { child, .. }
        | ParserAst::Ws { child, .. } => {
            of(CollectionCtor::Vec, synthesize(child, shapes, choices, types))
        }
        ParserAst::Grid { child, .. } => {
            of(CollectionCtor::Grid, synthesize(child, shapes, choices, types))
        }
        ParserAst::Optional { child, .. } => Type::Enum(
            EnumDefId(0),
            TypeList::from_vec(&vec![synthesize(child, shapes, choices, types)]),
        ),
        ParserAst::SectionsNamed { fields, .. } => {
            let mut out = Vec::new();
            for f in fields {
                let ty = synthesize(&f.parser, shapes, choices, types);
                out.push(FieldDef { name: f.name.clone(), ty });
            }
            shape(shapes, out)
        }
        ParserAst::Block { items, .. } => {
            let mut out: Vec<FieldDef> = Vec::new();
            for item in items {
                match item {
                    BlockItem::Named { name, parser } => {
                        let ty = synthesize(parser, shapes, choices, types);
                        out.push(FieldDef { name: name.clone(), ty });
                    }
                    BlockItem::Positional(parser) => {
                        let ty = synthesize(parser, shapes, choices, types);
                        if let Type::Record(d, _) = ty {
                            for f in &shapes[d.0 as usize].fields {
                                out.push(FieldDef { name: f.name.clone(), ty: f.ty.dup() });
                            }
                        }
                    }
                }
            }
            shape(shapes, out)
        }
        ParserAst::Choice { cases, .. } => {
            let mut variants = Vec::new();
            for case in cases {
                let ty = synthesize(&case.parser, shapes, choices, types);
                let payload = TypeList::from_vec(&vec![ty]);
                variants.push(VariantDef { name: case.name.clone(), payload });
            }
            choices.push(EnumDef { name: None, params: Vec::new(), variants });
            // The first enum of every program is `Option`.
            Type::Enum(EnumDefId(choices.len() as u32), TypeList::Nil)
        }
        other => panic!("{other:?} is not in this table"),
    };
    types.push((ast.span(), ty.dup()));
    ty
}

fn shape(shapes: &mut Vec<RecordDef>, fields: Vec<FieldDef>) -> Type {
    shapes.push(RecordDef { name: None, params: Vec::new(), fields });
    Type::Record(RecordDefId(shapes.len() as u32 - 1), TypeList::Nil)
}

// ---------------------------------------------------------------------------
// The standard library's names
// ---------------------------------------------------------------------------

fn func(params: Vec<Type>, result: Type) -> Type {
    Type::Func(TypeList::from_vec(&params), Box::new(result))
}

fn int_ty() -> Type {
    Type::Scalar(ScalarType::Int)
}

/// A name of the standard library, with its variables quantified.
fn builtin(names: &mut NameTable, name: &str, kind: SymbolKind, binders: Vec<u32>, body: Type) {
    names.insert(Symbol {
        id: SymbolId(0),
        name: name.to_string(),
        kind,
        decl: None,
        reassigned: false,
        scheme: Some(Scheme { binders, body, needs: Vec::new() }),
    });
}

/// The types a row of the method table is written with.
struct Row<'a> {
    db: &'a mut TypeDb,
    vars: Vec<(String, Type)>,
    binders: Vec<u32>,
    needs: Vec<Need>,
}

impl Row<'_> {
    fn var(&mut self, name: &str) -> Type {
        if let Some((_, t)) = self.vars.iter().find(|(n, _)| n == name) {
            return t.dup();
        }
        let t = self.db.fresh_var();
        if let Type::Var(v) = &t {
            self.binders.push(*v);
        }
        self.vars.push((name.to_string(), t.dup()));
        t
    }

    fn list(&mut self, ts: &[TypeExpr]) -> TypeList {
        let ts: Vec<Type> = ts.iter().map(|t| self.ty(t)).collect();
        TypeList::from_vec(&ts)
    }

    fn ty(&mut self, t: &TypeExpr) -> Type {
        match &t.kind {
            TypeExprKind::Tuple(ts) if ts.len() == 1 => self.ty(&ts[0]),
            TypeExprKind::Tuple(ts) if ts.is_empty() => Type::Unit,
            TypeExprKind::Tuple(ts) => Type::Tuple(self.list(ts)),
            TypeExprKind::Func(ps, r) => {
                let params = self.list(ps);
                let result = self.ty(r.as_ref().unwrap());
                Type::Func(params, Box::new(result))
            }
            TypeExprKind::Name(name, args) => match name.text.as_str() {
                "Option" => Type::Enum(EnumDefId(0), self.list(args)),
                // Anything that yields items of the given type.
                "Each" => {
                    let item = self.ty(&args[0]);
                    let ty = self.var(&format!("Each{}", t.range.start));
                    self.needs.push(Need {
                        what: Capability::Iterable,
                        ty: ty.dup(),
                        other: item,
                        from: None,
                    });
                    ty
                }
                word => {
                    if let Some(t) = plain_type(&word.to_string()) {
                        t
                    } else if let Some(c) = ctor_named(&word.to_string()) {
                        Type::Collection(c, self.list(args))
                    } else {
                        self.var(word)
                    }
                }
            },
        }
    }
}

/// Methods, as `Receiver.name(params) -> result`, and what a variable of theirs
/// has to support.
const METHODS: [(&str, &str); 88] = [
    ("Map[K, Int].lower(K, Int) -> Unit", "key K"),
    ("Map[K, Int].upper(K, Int) -> Unit", "key K"),
    ("Vec[T].at(Int) -> T", ""),
    ("Vec[T].put(Int, T) -> Unit", ""),
    ("Deque[T].at(Int) -> T", ""),
    ("Deque[T].put(Int, T) -> Unit", ""),
    ("Map[K, V].at(K) -> V", "key K"),
    ("Map[K, V].put(K, V) -> Unit", "key K"),
    ("Counter[K].at(K) -> Int", "key K"),
    ("Counter[K].put(K, Int) -> Unit", "key K"),
    ("Grid[T].at(Int, Int) -> T", ""),
    ("Grid[T].put(Int, Int, T) -> Unit", ""),
    ("Text.at(Int) -> Char", ""),
    ("Vec[T].push(T) -> Unit", ""),
    ("Vec[T].pop() -> Option[T]", ""),
    ("Vec[T].len() -> Int", ""),
    ("Vec[T].get(Int) -> T", ""),
    ("Vec[T].is_empty() -> Bool", ""),
    ("Vec[T].contains(T) -> Bool", ""),
    ("Vec[T].first() -> Option[T]", ""),
    ("Deque[T].push(T) -> Unit", ""),
    ("Deque[T].push_back(T) -> Unit", ""),
    ("Deque[T].push_front(T) -> Unit", ""),
    ("Deque[T].pop_front() -> Option[T]", ""),
    ("Deque[T].len() -> Int", ""),
    ("Set[T].insert(T) -> Unit", "key T"),
    ("Set[T].push(T) -> Unit", "key T"),
    ("Set[T].contains(T) -> Bool", "key T"),
    ("Set[T].remove(T) -> Unit", "key T"),
    ("Set[T].len() -> Int", ""),
    ("Map[K, V].insert(K, V) -> Unit", "key K"),
    ("Map[K, V].get(K) -> Option[V]", "key K"),
    ("Map[K, V].contains_key(K) -> Bool", "key K"),
    ("Map[K, V].contains(K) -> Bool", "key K"),
    ("Map[K, V].remove(K) -> Unit", "key K"),
    ("Map[K, V].keys() -> Vec[K]", ""),
    ("Map[K, V].values() -> Vec[V]", ""),
    ("Map[K, V].len() -> Int", ""),
    ("Counter[K].inc(K) -> Unit", "key K"),
    ("Counter[K].get(K) -> Int", "key K"),
    ("Counter[K].len() -> Int", ""),
    ("MinHeap[T].push(T) -> Unit", "order T"),
    ("MinHeap[T].pop() -> T", ""),
    ("MinHeap[T].len() -> Int", ""),
    ("MaxHeap[T].push(T) -> Unit", "order T"),
    ("MaxHeap[T].pop() -> T", ""),
    ("MaxHeap[T].len() -> Int", ""),
    ("BitSet.insert(Int) -> Unit", ""),
    ("BitSet.contains(Int) -> Bool", ""),
    ("BitSet.len() -> Int", ""),
    ("Grid[T].get(Int, Int) -> Option[T]", ""),
    ("Grid[T].cells() -> Vec[T]", ""),
    ("Text.len() -> Int", ""),
    ("Char.to_int() -> Int", ""),
    ("Float.sqrt() -> Float", ""),
    ("Float.abs() -> Float", ""),
    ("Float.min(Float) -> Float", ""),
    ("Float.max(Float) -> Float", ""),
    ("Float.clamp(Float, Float) -> Float", ""),
    ("Each[(K, V)].to_map() -> Map[K, V]", "key K"),
    ("Each[T].to_counter() -> Counter[T]", "key T"),
    ("Each[T].to_set() -> Set[T]", "key T"),
    ("Each[Int].to_bitset() -> BitSet", ""),
    ("Each[T].to_deque() -> Deque[T]", ""),
    ("Each[T].to_min_heap() -> MinHeap[T]", "order T"),
    ("Each[T].to_max_heap() -> MaxHeap[T]", "order T"),
    ("Each[T].map((T) -> U) -> Vec[U]", ""),
    ("Each[T].flat_map((T) -> Vec[U]) -> Vec[U]", ""),
    ("Each[T].filter((T) -> Bool) -> Vec[T]", ""),
    ("Each[Int].sum() -> Int", ""),
    ("Each[Int].product() -> Int", ""),
    ("Each[Int].min() -> Int", ""),
    ("Each[Int].max() -> Int", ""),
    ("Each[T].count() -> Int", ""),
    ("Each[T].count((T) -> Bool) -> Int", ""),
    ("Each[T].any((T) -> Bool) -> Bool", ""),
    ("Each[T].all((T) -> Bool) -> Bool", ""),
    ("Each[T].fold(U, (U, T) -> U) -> U", ""),
    ("Each[T].reduce((T, T) -> T) -> T", ""),
    ("Each[T].sorted() -> Vec[T]", "order T"),
    ("Each[T].sorted_by_key((T) -> K) -> Vec[T]", "order K"),
    ("Each[T].frequencies() -> Counter[T]", "key T"),
    ("Each[T].unique() -> Vec[T]", "key T"),
    ("Each[T].chunks(Int) -> Vec[Vec[T]]", ""),
    ("Each[T].windows(Int) -> Vec[Vec[T]]", ""),
    ("Each[T].enumerate() -> Vec[(Int, T)]", ""),
    ("Each[T].zip(Vec[U]) -> Vec[(T, U)]", ""),
    ("Each[T].to_vec() -> Vec[T]", ""),
];

/// Walks over graphs: functions whose states have to be keys.
const WALKS: [&str; 6] = [
    "bfs(T, (T) -> Vec[T]) -> Vec[T]",
    "dfs(T, (T) -> Vec[T]) -> Vec[T]",
    "flood_fill(T, (T) -> Vec[T]) -> Set[T]",
    "dijkstra(T, (T) -> Vec[T], (T, T) -> Int) -> Map[T, Int]",
    "bfs_distance(T, (T) -> Vec[T], (T) -> Bool) -> Option[Int]",
    "a_star(T, (T) -> Vec[T], (T, T) -> Int, (T) -> Int, (T) -> Bool) -> Option[Int]",
];

fn add_walks(db: &mut TypeDb, names: &mut NameTable) {
    for signature in WALKS {
        let mut reader = Reader::new(signature, 0, signature.len());
        let name = reader.ident().text;
        let params = reader.types("(", ")");
        reader.want("->");
        let result = reader.ty();
        let mut row = Row { db, vars: Vec::new(), binders: Vec::new(), needs: Vec::new() };
        let params = row.list(&params);
        let result = row.ty(&result);
        let ty = row.var("T");
        names.insert(Symbol {
            id: SymbolId(0),
            name,
            kind: SymbolKind::Builtin,
            decl: None,
            reassigned: false,
            scheme: Some(Scheme {
                binders: row.binders,
                body: Type::Func(params, Box::new(result)),
                needs: vec![Need { what: Capability::Hashable, ty: ty.dup(), other: ty, from: None }],
            }),
        });
    }
}

fn method_rows(db: &mut TypeDb) -> Vec<MethodRow> {
    let mut rows = Vec::new();
    for (i, (signature, supports)) in METHODS.iter().enumerate() {
        let mut reader = Reader::new(signature, 0, signature.len());
        let receiver = reader.ty();
        reader.want(".");
        let name = match reader.ident().text.as_str() {
            "at" => "[]".to_string(),
            "put" => "[]=".to_string(),
            "lower" => "[]min=".to_string(),
            "upper" => "[]max=".to_string(),
            other => other.to_string(),
        };
        let mut params = reader.types("(", ")");
        reader.want("->");
        let result = reader.ty();
        let receiver_is_iterable = signature.starts_with("Each");
        params.insert(0, receiver);
        let mut row = Row { db, vars: Vec::new(), binders: Vec::new(), needs: Vec::new() };
        let list = row.list(&params);
        let result = row.ty(&result);
        if let Some((what, name)) = supports.split_once(' ') {
            let ty = row.var(name);
            let what = if what == "key" { Capability::Hashable } else { Capability::Orderable };
            row.needs.push(Need { what, ty: ty.dup(), other: ty, from: None });
        }
        let scheme = Scheme {
            binders: row.binders,
            body: Type::Func(list, Box::new(result)),
            needs: row.needs,
        };
        let routine = MethodLowering::RuntimeSymbol(RuntimeSymbol(i as u32));
        rows.push(MethodRow {
            name,
            scheme,
            entry: MethodEntry {
                lowering: routine,
                purity: Purity::Impure,
                receiver_is_iterable,
                index_read: Some(routine),
            },
        });
    }
    rows
}

fn prelude() -> Prelude {
    let mut db = TypeDb::new();
    let mut names = NameTable::default();
    let item = db.fresh_var();
    let Type::Var(v) = item else { panic!("a variable") };
    let one = |t: &Type| TypeList::from_vec(&vec![t.dup()]);
    let option = Type::Enum(EnumDefId(0), one(&item));
    db.enums.push(EnumDef {
        name: Some("Option".to_string()),
        params: vec![v],
        variants: vec![
            VariantDef { name: "None".to_string(), payload: TypeList::Nil },
            VariantDef { name: "Some".to_string(), payload: one(&item) },
        ],
    });
    let b = SymbolKind::Builtin;
    builtin(&mut names, "out", b, vec![v], func(vec![item.dup()], Type::Unit));
    builtin(&mut names, "dbg", b, vec![v], func(vec![item.dup()], item.dup()));
    builtin(&mut names, "panic", b, vec![v], func(vec![item.dup()], Type::Never));
    let bool_type = Type::Scalar(ScalarType::Bool);
    builtin(&mut names, "assert", b, vec![], func(vec![bool_type], Type::Unit));
    builtin(&mut names, "pi", b, vec![], func(vec![], Type::Scalar(ScalarType::Float)));
    for name in ["abs", "sign"] {
        builtin(&mut names, name, b, vec![], func(vec![int_ty()], int_ty()));
    }
    for name in ["min", "max", "gcd", "lcm"] {
        builtin(&mut names, name, b, vec![], func(vec![int_ty(), int_ty()], int_ty()));
    }
    builtin(&mut names, "clamp", b, vec![], func(vec![int_ty(), int_ty(), int_ty()], int_ty()));
    let variant = SymbolKind::EnumVariant;
    builtin(&mut names, "None", variant, vec![v], option.dup());
    builtin(&mut names, "Some", variant, vec![v], func(vec![item], option.dup()));
    add_walks(&mut db, &mut names);
    let methods = method_rows(&mut db);
    Prelude { db, names, types: vec![("Option".to_string(), option)], methods }
}

// ---------------------------------------------------------------------------
// What the tests ask
// ---------------------------------------------------------------------------

/// A program as it was read.
struct Program {
    file: SourceFile,
    prelude: Prelude,
    errors: Vec<String>,
}

fn program(text: &str) -> Program {
    let mut reader = Reader::new(text, 0, text.len());
    let file = reader.file();
    let mut prelude = prelude();
    prelude.db.records = reader.shapes;
    prelude.db.enums.append(&mut reader.choices);
    Program { file, prelude, errors: reader.errors }
}

fn analyze(text: &str) -> Analysis {
    let p = program(text);
    analyze_root(FileId(0), &Some(p.file), p.prelude)
}

fn analyze_and_lower(text: &str) -> (Analysis, TypedModule) {
    let p = program(text);
    let root = Some(p.file);
    let mut analysis = analyze_root(FileId(0), &root, p.prelude);
    let module = lower(FileId(0), root.as_ref().unwrap(), &mut analysis);
    (analysis, module)
}

/// A code as it is printed: a letter and three digits.
fn code_of(d: &Diagnostic) -> String {
    let (letter, number) = d.code.parts();
    format!("{letter}{number:03}")
}

fn number_of(d: &Diagnostic) -> u32 {
    d.code.parts().1 as u32
}

fn scheme_of(text: &str, name: &str) -> Option<String> {
    let analysis = analyze(text);
    analysis
        .names
        .all()
        .iter()
        .filter(|s| s.name == name && s.kind != SymbolKind::Builtin)
        .find_map(|s| s.scheme.as_ref().map(|sc| analysis.db.render_scheme(sc)))
}

fn expr_type(expr: &str) -> String {
    let src = format!("var _probe = {expr}");
    scheme_of(&src, "_probe").unwrap_or_else(|| panic!("no scheme for expr `{expr}`"))
}

fn has_code_letter(diagnostics: &[Diagnostic], letter: char) -> bool {
    diagnostics.iter().any(|d| d.code.parts().0 == letter)
}

fn has_type_error(text: &str) -> bool {
    has_code_letter(&analyze(text).diagnostics, 'Y')
}

fn has_name_error(text: &str) -> bool {
    has_code_letter(&analyze(text).diagnostics, 'N')
}

fn has_input_error(text: &str) -> bool {
    has_code_letter(&analyze(text).diagnostics, 'I')
}

fn errors_of(text: &str) -> Vec<String> {
    let p = program(text);
    let mut errors = p.errors;
    for d in &analyze_root(FileId(0), &Some(p.file), p.prelude).diagnostics {
        errors.push(format!("{}: {}", code_of(d), d.message));
    }
    errors
}

fn has_type_error_with_lower(text: &str) -> bool {
    has_code_letter(&analyze_and_lower_diags(text), 'Y')
}

fn is_clean_with_lower(text: &str) -> bool {
    analyze_and_lower_diags(text).is_empty()
}

fn analyze_and_lower_diags(text: &str) -> Vec<Diagnostic> {
    let (analysis, module) = analyze_and_lower(text);
    let mut all = analysis.diagnostics;
    all.extend(module.diagnostics);
    all
}

fn first_mismatch_span(src: &str) -> Option<(u32, u32)> {
    let analysis = analyze(src);
    let d = analysis.diagnostics.iter().find(|d| d.code.parts().0 == 'Y')?;
    Some(d.primary.span.to_pair())
}

fn span_of(src: &str, needle: &str) -> (u32, u32) {
    let start = src.find(needle).unwrap_or_else(|| {
        panic!("needle `{needle}` not found in src:\n{src}");
    }) as u32;
    (start, start + needle.len() as u32)
}

/// What reading a program reported.
#[derive(Debug)]
struct Parsed {
    diagnostics: Vec<String>,
}

fn parse_analyze_and_lower(text: &str) -> (Parsed, Analysis, TypedModule) {
    let diagnostics = program(text).errors;
    let (analysis, module) = analyze_and_lower(text);
    (Parsed { diagnostics }, analysis, module)
}

fn fn_named<'a>(module: &'a TypedModule, name: &str) -> &'a TypedFn {
    module
        .items
        .iter()
        .map(|i| match i {
            TypedItem::Fn(f) => f,
        })
        .find(|f| f.name == name)
        .unwrap_or_else(|| panic!("no function `{name}`"))
}

fn entry_fn(module: &TypedModule) -> &TypedFn {
    fn_named(module, ENTRY_NAME)
}

/// The functions of a program after monomorphization: their names and types.
fn mono_fns(src: &str) -> Vec<(String, String, String, String)> {
    let (mut analysis, module) = analyze_and_lower(src);
    assert!(module.diagnostics.is_empty(), "lowering diagnostics: {:?}", module.diagnostics);
    let mono = monomorphize(module, &analysis.names, &mut analysis.db);
    mono.items
        .iter()
        .map(|i| match i {
            TypedItem::Fn(f) => (
                f.name.clone(),
                analysis.db.render(&f.fn_type),
                f.params.first().map(|p| analysis.db.render(&p.ty)).unwrap_or_default(),
                analysis.db.render(&f.body.ty),
            ),
        })
        .collect()
}

fn mono_names(src: &str) -> Vec<String> {
    mono_fns(src).into_iter().map(|f| f.0).collect()
}

/// The byte offset of the first occurrence of `needle` in `src`.
fn at(src: &str, needle: &str) -> u32 {
    span_of(src, needle).0
}

/// The source text `span` covers.
fn text_at(src: &str, span: Span) -> &str {
    &src[span.start as usize..span.end as usize]
}

const STEPS: &str = "fn steps(n: Int) -> Vec[Int] { Vec() }\n";

// ---------------------------------------------------------------------------
// Programs
// ---------------------------------------------------------------------------

#[test]
fn infers_int_function_from_arithmetic_body() {
    let scheme = scheme_of("fn add(a, b) { a + b }", "add").expect("add has a scheme");
    assert_eq!(scheme, "(Int, Int) -> Int");
}

#[test]
fn infers_unused_param_is_polymorphic() {
    let scheme = scheme_of("fn greet(name) { \"hi\" }", "greet").expect("scheme");
    assert_eq!(scheme, "forall T. (T) -> Text");
}

#[test]
fn infers_annotated_return_from_body() {
    let src = "fn double(n: Int) -> Int { n + n }";
    let analysis = analyze(src);
    assert!(
        !has_type_error(src),
        "annotated fn should type-check: {:?}",
        analysis.diagnostics
    );
}

#[test]
fn shadowed_let_changes_type() {
    let src = "var a = 4\nvar a = \"Foo\"";
    let analysis = analyze(src);
    let a_schemes: Vec<_> = analysis
        .names
        .all()
        .iter()
        .filter(|s| s.name == "a" && s.kind == SymbolKind::Var)
        .filter_map(|s| s.scheme.as_ref())
        .map(|sc| analysis.db.render_scheme(sc))
        .collect();
    assert_eq!(a_schemes, vec!["Int", "Text"]);
}

#[test]
fn cross_type_var_reassignment_is_rejected() {
    let analysis = analyze("var x = 0\nx = \"hi\"");
    let type_errs: Vec<_> = analysis
        .diagnostics
        .iter()
        .filter(|d| d.code.parts().0 == 'Y')
        .collect();
    assert_eq!(
        type_errs.len(),
        1,
        "expected one Y001, got {:?}",
        analysis.diagnostics
    );
    assert!(analysis.diagnostics[0]
        .message
        .contains("expected Int, found Text"));
}

#[test]
fn same_type_var_reassignment_is_accepted() {
    assert!(!has_type_error("var x = 0\nx = 1"));
}

#[test]
fn compound_assignment_type_checked() {
    assert!(has_type_error("var x = 0\nx += \"s\""));
}

#[test]
fn a_mismatch_names_the_requirement_as_expected_and_the_program_as_found() {
    for (src, want) in [
        ("var a = 1 + true", "expected Int, found Bool"),
        ("var r = \"a\"..2", "expected Int, found Text"),
        ("var c = !1", "expected Bool, found Int"),
        ("var c = -\"x\"", "expected Int, found Text"),
        ("var v = parse(1, int)", "expected Text, found Int"),
        ("var x = 0\nx = \"hi\"", "expected Int, found Text"),
    ] {
        let errors = errors_of(src);
        assert!(
            errors.iter().any(|e| e.contains(want)),
            "`{src}` should report `{want}`, got {errors:?}"
        );
    }
}

#[test]
fn a_call_with_the_wrong_argument_count_names_the_counts() {
    for (src, want) in [
        (
            "assert(1 == 1, \"why\")",
            "this function takes 1 argument(s), but 2 were given",
        ),
        (
            "fn add(a, b) { a + b }\nvar n = add(1)",
            "this function takes 2 argument(s), but 1 were given",
        ),
        (
            "fn one(a) { a }\nvar n = one(1, 2)",
            "this function takes 1 argument(s), but 2 were given",
        ),
        (
            "var f = |a, b| a + b\nvar n = f(1)",
            "this function takes 2 argument(s), but 1 were given",
        ),
    ] {
        let errors = errors_of(src);
        assert!(
            errors.iter().any(|e| e.contains(want)),
            "`{src}` should report `{want}`, got {errors:?}"
        );
    }
}

#[test]
fn a_text_operand_makes_plus_concatenation_and_nothing_else_legal() {
    assert_eq!(expr_type("\"a\" + \"b\""), "Text");
    assert_eq!(expr_type("\"a\" + \"b\" + \"c\""), "Text");
    assert!(!has_type_error(
        "var a = \"x\"\nvar b = \"y\"\nvar c = a + b"
    ));
    assert_eq!(
        scheme_of("var a = \"x\"\nvar b = \"y\"\nvar c = a + b", "c").as_deref(),
        Some("Text")
    );
    assert!(!has_type_error("var s = \"a\"\ns += \"b\""));
    assert!(has_type_error("var s = \"a\"\ns -= \"b\""));
    assert!(has_type_error("var n = 0\nn += \"b\""));
    for src in [
        "var x = \"a\" - \"b\"",
        "var x = \"a\" * \"b\"",
        "var x = \"a\" / \"b\"",
        "var x = \"a\" % \"b\"",
        "var x = \"ab\" * 3",
    ] {
        let errors = errors_of(src);
        assert!(
            errors.iter().any(|e| e.contains("Y016")),
            "`{src}` should be a Y016, got {errors:?}"
        );
    }
    assert!(has_type_error("var x = \"a\" + 1"));
    assert!(has_type_error("var x = 1 + \"a\""));
    assert!(has_type_error("var x = \"a\" + 1.5"));
    assert!(has_type_error("var x = \"a\" + true"));
    assert_eq!(
        scheme_of("fn f(a, b) { a + b }", "f").as_deref(),
        Some("(Int, Int) -> Int")
    );
}

#[test]
fn arithmetic_yields_int() {
    assert_eq!(expr_type("1 + 2 * 3"), "Int");
}

#[test]
fn comparison_yields_bool() {
    assert_eq!(expr_type("1 == 2"), "Bool");
}

#[test]
fn comparison_operand_mismatch_is_rejected() {
    assert!(has_type_error("out(1 == \"a\")"));
}

#[test]
fn unary_minus_is_int() {
    assert_eq!(expr_type("-5"), "Int");
}

#[test]
fn logical_not_is_bool() {
    assert_eq!(expr_type("!true"), "Bool");
}

#[test]
fn tuple_type_is_inferred() {
    assert_eq!(expr_type("(1, \"a\")"), "(Int, Text)");
}

#[test]
fn nested_tuple_type_is_inferred() {
    assert_eq!(expr_type("(1, (true, 2))"), "(Int, (Bool, Int))");
}

#[test]
fn if_cond_must_be_bool() {
    let analysis = analyze("if 1 { out(2) }");
    assert!(analysis.diagnostics.iter().any(|d| {
        d.code.parts().0 == 'Y' && d.message.contains("expected Bool")
    }));
}

#[test]
fn while_cond_must_be_bool() {
    let analysis = analyze("while 1 { out(2) }");
    assert!(analysis.diagnostics.iter().any(|d| {
        d.code.parts().0 == 'Y' && d.message.contains("expected Bool")
    }));
}

#[test]
fn if_branches_must_match() {
    assert!(has_type_error("if true { 1 } else { \"a\" }"));
}

#[test]
fn let_int_binding_is_monotype() {
    assert_eq!(scheme_of("var x = 1", "x").unwrap(), "Int");
}

#[test]
fn var_binding_is_monotype() {
    assert_eq!(scheme_of("var x = true", "x").unwrap(), "Bool");
}

#[test]
fn recursive_fn_with_annotations_type_checks() {
    let src = "fn fact(n: Int) -> Int { if n <= 1 { 1 } else { n * fact(n - 1) } }";
    assert!(!has_type_error(src));
}

#[test]
fn recursive_fn_call_is_checked_against_its_eventual_signature() {
    let src = "fn recurse(n: Int) -> Int { recurse(\"wrong\") }";
    assert!(
        has_type_error(src),
        "recursive calls must constrain the declaration being inferred"
    );
}

#[test]
fn clean_program_has_no_diagnostics() {
    let src = "fn add(a: Int, b: Int) -> Int { a + b }\nout(add(1, 2))";
    let analysis = analyze(src);
    assert!(analysis.is_clean(), "{:?}", analysis.diagnostics);
}

#[test]
fn out_accepts_any_type() {
    assert!(!has_type_error("out(1)"));
    assert!(!has_type_error("out(\"a\")"));
    assert!(!has_type_error("out(true)"));
}

#[test]
fn read_atomic_synthesizes_scalar_type() {
    assert_eq!(expr_type("read int"), "Int");
    assert_eq!(expr_type("read char"), "Char");
}

#[test]
fn read_lines_of_int_synthesizes_vec_int() {
    assert_eq!(expr_type("read lines(int)"), "Vec[Int]");
}

#[test]
fn read_nested_sections_lines_csv_int() {
    assert_eq!(
        expr_type("read sections(lines(csv(int)))"),
        "Vec[Vec[Vec[Int]]]"
    );
}

#[test]
fn read_grid_of_char_synthesizes_grid_char() {
    assert_eq!(expr_type("read grid(char)"), "Grid[Char]");
}

#[test]
fn read_template_synthesizes_tuple() {
    assert_eq!(expr_type("read lines(`{int},{int}`)"), "Vec[(Int, Int)]");
}

#[test]
fn parse_expression_synthesizes_type() {
    let src = "fn f(sample: Text) { var v = parse(sample, lines(int)); v }";
    assert!(!has_type_error(src));
}

#[test]
fn read_in_fn_then_method_call_typechecks() {
    let src = "fn main() -> Int {\n  var v = read lines(int)\n  v.len()\n}\n";
    let analysis = analyze(src);
    assert!(
        !has_type_error(src),
        "type errors: {:?}",
        analysis.diagnostics
    );
}

#[test]
fn record_equality_typechecks() {
    let src = "struct Point { x: Int, y: Int }\nfn main() -> Int {\n  var a = Point { x: 1, y: 2 }\n  var b = Point { x: 1, y: 2 }\n  if a == b { 1 } else { 0 }\n}\n";
    assert!(!has_type_error(src));
}

#[test]
fn tuple_equality_typechecks() {
    let src =
        "fn main() -> Int {\n  var a = (1, 2)\n  var b = (1, 2)\n  if a == b { 1 } else { 0 }\n}\n";
    assert!(!has_type_error(src));
}

#[test]
fn comparing_functions_is_rejected() {
    let src = "fn f(x: Int) -> Int { x }\nfn g(x: Int) -> Int { x }\nfn main() -> Int {\n  if f == g { 1 } else { 0 }\n}\n";
    assert!(has_type_error(src));
}

#[test]
fn record_with_function_field_not_equatable() {
    let src = "struct Box { f: (Int) -> Int }\nfn id(x: Int) -> Int { x }\nfn main() -> Int {\n  var a = Box { f: id }\n  var b = Box { f: id }\n  if a == b { 1 } else { 0 }\n}\n";
    assert!(has_type_error(src));
}

#[test]
fn int_equality_still_typechecks() {
    assert!(!has_type_error(
        "fn main() -> Int {\n  if 3 == 3 { 1 } else { 0 }\n}\n"
    ));
}

#[test]
fn non_exhaustive_enum_match_is_rejected() {
    let src = "enum Tile { Empty, Wall, Number(Int) }\nfn main() -> Int {\n  var t = Empty\n  match t {\n    Empty => 1\n    Number(n) => n\n  }\n}\n";
    assert!(has_type_error_with_lower(src));
}

#[test]
fn exhaustive_enum_match_is_ok() {
    let src = "enum Tile { Empty, Wall, Number(Int) }\nfn main() -> Int {\n  var t = Empty\n  match t {\n    Empty => 1\n    Wall => 2\n    Number(n) => n\n  }\n}\n";
    assert!(!has_type_error_with_lower(src));
}

#[test]
fn enum_match_with_wildcard_is_ok() {
    let src = "enum Tile { Empty, Wall, Number(Int) }\nfn main() -> Int {\n  var t = Empty\n  match t {\n    Empty => 1\n    _ => 0\n  }\n}\n";
    assert!(!has_type_error_with_lower(src));
}

#[test]
fn int_match_without_wildcard_is_rejected() {
    let src = "fn main() -> Int {\n  var n = 1\n  match n {\n    1 => 10\n    2 => 20\n  }\n}\n";
    assert!(has_type_error_with_lower(src));
}

#[test]
fn int_match_with_wildcard_is_ok() {
    let src = "fn main() -> Int {\n  var n = 1\n  match n {\n    1 => 10\n    2 => 20\n    _ => 0\n  }\n}\n";
    assert!(!has_type_error_with_lower(src));
}

#[test]
fn bool_match_without_both_cases_is_rejected() {
    let src = "fn main() -> Int {\n  var b = true\n  match b {\n    true => 1\n  }\n}\n";
    assert!(has_type_error_with_lower(src));
}

#[test]
fn bool_match_both_cases_is_ok() {
    let src =
        "fn main() -> Int {\n  var b = true\n  match b {\n    true => 1\n    false => 0\n  }\n}\n";
    assert!(!has_type_error_with_lower(src));
}

#[test]
fn arm_after_wildcard_is_unreachable() {
    let src = "enum Tile { Empty, Wall }\nfn main() -> Int {\n  var t = Empty\n  match t {\n    _ => 0\n    Empty => 1\n  }\n}\n";
    assert!(has_type_error_with_lower(src));
}

#[test]
fn closure_infers_identity_type() {
    let ty = expr_type("|x| x");
    assert!(ty.contains("->"), "closure type was: {ty}");
}

#[test]
fn closure_typechecks() {
    let src = "fn main() -> Int {\n  var o = 10\n  var f = |x| x + o\n  0\n}\n";
    assert!(!has_type_error(src));
}

#[test]
fn closure_with_typed_param_typechecks() {
    let src = "fn main() -> Int {\n  var f = |x: Int| x + 1\n  0\n}\n";
    assert!(!has_type_error(src));
}

#[test]
fn closure_by_value_capture_lowers_clean() {
    let src = "fn main() -> Int {\n  var o = 10\n  var f = |x| x + o\n  f(5)\n}\n";
    assert!(!has_type_error_with_lower(src));
}

#[test]
fn mutable_capture_now_supported() {
    let src = "fn main() -> Int {\n  var c = 0\n  var f = |_| c\n  f(0)\n}\n";
    assert!(
        !has_type_error_with_lower(src),
        "mutable capture should be supported (WS7b)"
    );
}

#[test]
fn return_type_mismatch_points_at_tail_expression() {
    let src = "fn main() -> Int {\n    var depths = read lines(int)\n    out(\"kurac\")\n}\n";
    let expected = span_of(src, "out(\"kurac\")");
    let actual = first_mismatch_span(src).expect("expected a Y001 mismatch");
    assert_eq!(
        actual, expected,
        "return-type mismatch should point at the tail expression, got {actual:?} (expected {expected:?})",
    );
}

#[test]
fn let_annotation_mismatch_points_at_initializer() {
    let src = "fn main() -> Int {\n    var x: Int = \"hello\"\n    0\n}\n";
    let expected = span_of(src, "\"hello\"");
    let actual = first_mismatch_span(src).expect("expected a Y001 mismatch");
    assert_eq!(
        actual, expected,
        "var-annotation mismatch should point at the initializer, got {actual:?}",
    );
}

#[test]
fn arithmetic_operand_mismatch_points_at_bad_operand() {
    let src = "fn main() -> Int {\n    var s = \"hi\"\n    var t = s + 1\n    0\n}\n";
    let expected = span_of(src, "1\n    0");
    let expected = (expected.0, expected.0 + 1);
    let actual = first_mismatch_span(src).expect("expected a Y001 mismatch");
    assert_eq!(
        actual, expected,
        "the mismatch should point at `1`, the operand a concatenation cannot take, got {actual:?}",
    );
    let src = "fn main() -> Int {\n    var n = 1\n    var t = n + true\n    0\n}\n";
    let expected = span_of(src, "true");
    let actual = first_mismatch_span(src).expect("expected a Y001 mismatch");
    assert_eq!(
        actual, expected,
        "the mismatch should point at `true`, got {actual:?}",
    );
}

#[test]
fn if_condition_mismatch_points_at_condition() {
    let src = "fn main() -> Int {\n    if 5 { 1 } else { 0 }\n}\n";
    let expected = span_of(src, "5");
    let actual = first_mismatch_span(src).expect("expected a Y001 mismatch");
    assert_eq!(
        actual, expected,
        "if-condition mismatch should point at the condition, got {actual:?}",
    );
}

#[test]
fn mismatch_carries_a_help_hint_when_found_is_unit() {
    let src = "fn main() -> Int {\n    out(\"x\")\n}\n";
    let analysis = analyze(src);
    let d = analysis
        .diagnostics
        .iter()
        .find(|d| d.code.parts().0 == 'Y')
        .expect("expected a type error");
    assert!(
        !d.suggestions.is_empty(),
        "Unit mismatch should carry a help hint: {:?}",
        d.suggestions
    );
    assert!(
        d.suggestions[0].message.contains("Unit"),
        "the hint should explain the Unit value: {:?}",
        d.suggestions[0].message
    );
}

#[test]
fn tuple_parameter_annotation_is_enforced() {
    let src = "fn bad(x: (Int, Text)) -> Int { x + 1 }";
    assert!(
        has_type_error(src),
        "using a tuple-annotated parameter as Int must be rejected"
    );
}

#[test]
fn function_parameter_annotation_is_enforced() {
    let src = "fn bad(f: (Int) -> Int) -> Int { f(\"wrong\") }";
    assert!(
        has_type_error(src),
        "function-typed parameter annotation must constrain calls"
    );
}

#[test]
fn tuple_return_annotation_is_enforced() {
    let src = "fn bad() -> (Int, Text) { (1, true) }";
    assert!(
        has_type_error(src),
        "direct tuple return annotations must not be silently ignored"
    );
}

#[test]
fn user_enum_annotation_is_enforced() {
    let src = "enum Tile { Empty }\nfn bad(tile: Tile) -> Int { tile + 1 }";
    assert!(
        has_type_error(src),
        "a Tile parameter cannot be inferred as Int"
    );
}

#[test]
fn function_typed_record_field_annotation_is_enforced() {
    let src = "struct Box { f: (Int) -> Int }\n\
               fn main() -> Int { var value = Box { f: 1 }; 0 }";
    assert!(
        has_type_error(src),
        "a function-typed record field cannot be initialized with Int"
    );
}

#[test]
fn function_typed_enum_payload_annotation_is_enforced() {
    let src = "enum Boxed { Box((Int) -> Int) }\n\
               fn main() -> Boxed { Box(1) }";
    assert!(
        has_type_error(src),
        "a function-typed enum payload cannot be constructed from Int"
    );
}

#[test]
fn a_tuple_or_function_annotation_is_the_type_it_writes() {
    assert_eq!(
        scheme_of("fn pair(x: (Int, Text)) -> Int { 0 }", "x").as_deref(),
        Some("(Int, Text)"),
        "a tuple-annotated parameter"
    );
    assert_eq!(
        scheme_of("fn apply(g: (Int) -> Text) -> Int { 0 }", "g").as_deref(),
        Some("(Int) -> Text"),
        "a function-annotated parameter"
    );
    assert_eq!(
        scheme_of("var p: (Int, Text) = (1, \"a\")", "p").as_deref(),
        Some("(Int, Text)"),
        "a tuple-annotated `var`"
    );
    assert!(
        !has_type_error("fn apply(g: (Int) -> Text) -> Text { g(1) }"),
        "…and a call that agrees with the annotation is fine"
    );
}

#[test]
fn a_parenthesized_annotation_is_the_type_it_groups() {
    assert_eq!(
        scheme_of("fn only(x: (Int)) -> Int { x }", "x").as_deref(),
        Some("Int")
    );
    assert!(
        has_type_error("fn only(x: (Int)) -> Text { x }"),
        "…and it constrains the body like a bare `Int` would"
    );
}

#[test]
fn a_nullary_function_annotation_takes_no_arguments() {
    assert_eq!(
        scheme_of("fn run(g: () -> Int) -> Int { 0 }", "g").as_deref(),
        Some("() -> Int")
    );
    assert!(
        has_type_error("fn run(g: () -> Int) -> Int { g(1) }"),
        "a nullary function cannot be called with an argument"
    );
}

#[test]
fn forward_struct_annotation_is_enforced() {
    let src = "fn bad(point: Point) -> Int { point + 1 }\n\
               struct Point { x: Int }";
    assert!(
        has_type_error(src),
        "a forward-resolved Point annotation cannot degrade to a fresh variable"
    );
}

#[test]
fn a_user_type_annotation_is_the_type_it_names() {
    assert_eq!(
        scheme_of("enum Tile { Empty }\nfn f(t: Tile) -> Int { 0 }", "t").as_deref(),
        Some("Tile"),
        "an enum annotation"
    );
    assert_eq!(
        scheme_of("struct Point { x: Int }\nfn f(p: Point) -> Int { 0 }", "p").as_deref(),
        Some("Point"),
        "a struct annotation"
    );
    assert_eq!(
        scheme_of(
            "enum Tile { Empty }\nfn f(ts: Vec[Tile]) -> Int { 0 }",
            "ts"
        )
        .as_deref(),
        Some("Vec[Tile]"),
        "…and nested inside a collection"
    );
    assert!(
        !has_type_error("enum Tile { Empty, Wall }\nfn f(t: Tile) -> Tile { t }"),
        "an enum annotation that agrees with the body is fine"
    );
}

#[test]
fn a_type_declaration_is_registered_after_the_types_it_names() {
    assert_eq!(
        scheme_of(
            "struct Outer { inner: Inner }\n\
             struct Inner { n: Int }\n\
             fn f(o: Outer) -> Int { o.inner.n }",
            "o"
        )
        .as_deref(),
        Some("Outer"),
    );
    assert!(
        has_type_error(
            "struct Outer { inner: Inner }\n\
             struct Inner { n: Int }\n\
             fn f(o: Outer) -> Text { o.inner.n }"
        ),
        "the forward field type is a real Int, not a fresh variable"
    );
    assert!(
        has_type_error(
            "enum Shape { Round(Circle) }\n\
             struct Circle { r: Int }\n\
             fn f() -> Shape { Round(1) }"
        ),
        "a forward enum payload type is enforced"
    );
}

#[test]
fn a_type_declaration_cycle_still_analyzes() {
    let analysis = analyze(
        "struct A { b: B }\n\
         struct B { a: A }\n\
         struct SelfRef { next: SelfRef }\n\
         fn f(x: Int) -> Int { x }",
    );
    assert!(
        analysis
            .names
            .all()
            .iter()
            .any(|s| s.name == "f" && s.scheme.is_some()),
        "the rest of the file is still inferred"
    );
    assert_eq!(
        analysis
            .diagnostics
            .iter()
            .filter(|d| d.code == DiagCode::RecursiveTypeDeclaration)
            .count(),
        3,
        "one N006 per cycle member: {:?}",
        analysis.diagnostics
    );
}

#[test]
fn value_binding_name_is_not_accepted_as_a_type() {
    let src = "var Alias = 1\nvar value: Alias = \"text\"";
    assert!(
        has_name_error(src),
        "ordinary value bindings are not type declarations"
    );
}

#[test]
fn a_value_in_type_position_is_reported_as_a_value() {
    for src in [
        "var Alias = 1\nvar value: Alias = 1",
        "var Alias = 1\nvar value: Alias = 1",
        "fn Alias() -> Int { 1 }\nvar value: Alias = 1",
        "var value: out = 1",
        "var Alias = 1\nfn f(x: (Int, Alias)) -> Int { 0 }",
        "var Alias = 1\nfn f(x: Vec[Alias]) -> Int { 0 }",
    ] {
        let codes: Vec<String> = analyze(src)
            .diagnostics
            .iter()
            .map(|d| code_of(d))
            .collect();
        assert!(
            codes.iter().any(|c| c == "N003"),
            "expected N003 for `{src}`, got {codes:?}"
        );
    }
}

#[test]
fn every_kind_of_type_name_is_still_accepted_in_type_position() {
    for src in [
        "var value: Int = 1",
        "var value: Text = \"a\"",
        "struct Point { x: Int }\nvar value: Point = Point { x: 1 }",
        "enum Tile { Empty }\nvar value: Tile = Empty",
        "var value: Vec[Int] = Vec()",
        "var value: Map[Text, Int] = Map()",
        "var value: Option[Int] = Some(1)",
    ] {
        assert!(
            !has_name_error(src),
            "`{src}` names a type: {:?}",
            analyze(src)
                .diagnostics
                .iter()
                .map(|d| format!("{} {}", code_of(d), d.message))
                .collect::<Vec<_>>()
        );
    }
}

#[test]
fn malformed_collection_type_arity_is_rejected() {
    let src = "fn identity(value: Map[Int]) -> Map[Int] { value }";
    assert!(
        !is_clean_with_lower(src),
        "Map has exactly two type arguments; malformed collection shapes must not enter TypeDb"
    );
}

#[test]
fn local_var_reassignment_preserves_its_type() {
    let src = "fn main() -> Int { var x = 0; x = \"bad\"; 0 }";
    assert!(
        has_type_error(src),
        "local assignments must use the resolver's exact lhs symbol"
    );
}

#[test]
fn a_binding_is_assignable() {
    assert!(is_clean_with_lower(
        "fn main() -> Int { var x = 1; x = 2; x }"
    ));
}

#[test]
fn a_reassigned_binding_is_not_generalized() {
    assert!(
        has_type_error("var f = |x| x\nf = |n| n + 1\nout(f(\"s\"))\n"),
        "a reassigned binding must stay monomorphic, or the second use picks its own instance"
    );
    assert!(
        is_clean_with_lower("var id = |x| x\nout(id(1))\nout(id(\"two\"))\n"),
        "a binding nothing writes is used at two types, exactly as a `let` was"
    );
}

#[test]
fn compound_assignment_requires_a_numeric_target() {
    let src = "var flag = true\nflag += false";
    assert!(
        has_type_error(src),
        "matching operand types alone do not make Bool addition valid"
    );
}

#[test]
fn an_assignment_constrains_the_local_it_names_and_no_other() {
    let src = "var count = 0\n               fn f() -> Int { var count = \"a\"; count = \"b\"; 0 }";
    assert!(!has_type_error(src), "the local assignment is well-typed");
    let schemes: Vec<String> = {
        let analysis = analyze(src);
        analysis
            .names
            .all()
            .iter()
            .filter(|s| s.name == "count" && s.kind == SymbolKind::Var)
            .filter_map(|s| s.scheme.as_ref())
            .map(|sc| analysis.db.render_scheme(sc))
            .collect()
    };
    assert_eq!(
        schemes,
        vec!["Int", "Text"],
        "each `count` keeps its own type"
    );
    assert!(
        has_type_error("fn f() -> Int { var local = 0; local = \"bad\"; 0 }"),
        "a local with no top-level namesake is still checked"
    );
    assert!(
        !has_type_error(
            "fn f() -> Int { var total = 0; var add = |n| { total += n }; add(1); total }"
        ),
        "a captured var may be assigned"
    );
    assert!(
        has_type_error("fn f() -> Int { var total = 0; var add = |n| { total = \"x\" }; 0 }"),
        "…and the capture is checked"
    );
}

#[test]
fn every_binding_kind_is_assignable_and_still_type_checked() {
    for (ok, bad) in [
        (
            "fn f() -> Int { var x = 1; x = 2; x }",
            "fn f() -> Int { var x = 1; x = \"two\"; x }",
        ),
        (
            "fn f(p: Int) -> Int { p = 2; p }",
            "fn f(p: Int) -> Int { p = \"two\"; p }",
        ),
        (
            "fn f(v: Vec[Int]) -> Int { for x in v { x = 1 }; 0 }",
            "fn f(v: Vec[Int]) -> Int { for x in v { x = \"one\" }; 0 }",
        ),
        (
            "enum E { N(Int) }\nfn f(e: E) -> Int { match e { N(n) => { n = 1; n } } }",
            "enum E { N(Int) }\nfn f(e: E) -> Int { match e { N(n) => { n = \"one\"; n } } }",
        ),
    ] {
        assert!(
            is_clean_with_lower(ok),
            "every binding is assignable: `{ok}` reported {:?}",
            analyze_and_lower_diags(ok)
        );
        assert!(
            has_type_error(bad),
            "assignment still has to preserve the type: `{bad}` was accepted"
        );
    }
}

#[test]
fn a_compound_assignment_needs_a_numeric_target() {
    for src in [
        "var flag = true\nflag += false",
        "fn f() -> Int { var pair = (1, 2); pair += (3, 4); 0 }",
        "var name = \"a\"\nname -= \"b\"",
        "var name = \"a\"\nname *= \"b\"",
    ] {
        let codes: Vec<String> = analyze(src)
            .diagnostics
            .iter()
            .map(|d| code_of(d))
            .collect();
        assert!(
            codes.iter().any(|c| c == "Y010"),
            "expected Y010 for `{src}`, got {codes:?}"
        );
    }
    assert!(
        !has_type_error("var n = 0\nn += 1\nn -= 1\nn *= 2\nn /= 2\nn %= 2"),
        "every compound operator is fine on Int"
    );
    assert!(!has_type_error("var x = 1.5\nx += 0.5"), "…and on Float");
    assert!(
        !has_type_error("var n = 0\nn = 1"),
        "a plain `=` is not arithmetic and needs no numeric target"
    );
    assert!(
        !has_type_error("var name = \"a\"\nname += \"b\""),
        "`+=` on a Text is concatenation"
    );
}

#[test]
fn if_without_else_cannot_produce_the_then_value_type() {
    let src = "fn maybe(flag: Bool) -> Int { if flag { 1 } }";
    assert!(
        has_type_error(src),
        "the absent else path produces Unit, not Int"
    );
}

#[test]
fn an_else_less_if_is_unit_unless_its_branch_diverges() {
    assert_eq!(
        scheme_of("fn f(c: Bool) -> Unit { if c { out(1) } }", "f").as_deref(),
        Some("(Bool) -> Unit")
    );
    for src in [
        "fn f(c: Bool) -> Int { if c { panic(\"x\") }\n  1 }",
        "enum E { A }\nfn f(c: Bool, e: E) -> Int { if c { match e { A => panic(\"x\") } }\n  1 }",
    ] {
        assert!(
            !has_type_error(src),
            "`{src}` reported {:?}",
            analyze(src)
                .diagnostics
                .iter()
                .map(|d| format!("{} {}", code_of(d), d.message))
                .collect::<Vec<_>>()
        );
    }
    assert!(has_type_error(
        "fn f(c: Bool) -> Unit { if c { \"text\" } }"
    ));
    assert!(has_type_error("fn f(c: Bool) -> Unit { if c { (1, 2) } }"));
}

#[test]
fn early_return_value_must_match_the_function_result() {
    let src = "fn bad() -> Int { return \"wrong\"; 1 }";
    assert!(
        has_type_error(src),
        "an early return must be checked even when the block tail has the declared type"
    );
}

#[test]
fn a_return_is_checked_against_the_function_it_leaves() {
    assert!(has_type_error("fn f() -> Int { return\n  1 }"));
    assert!(!has_type_error("fn f() -> Unit { return\n  out(1) }"));
    assert_eq!(
        scheme_of("fn f(c: Bool) { if c { return 1 }\n  2 }", "f").as_deref(),
        Some("(Bool) -> Int")
    );
    assert!(
        has_type_error("fn f(c: Bool) { if c { return 1 }\n  \"two\" }"),
        "a return and the tail must agree even with no annotation"
    );
    assert!(has_type_error(
        "fn f(c: Bool) -> Int { if c { return \"x\" }\n  1 }"
    ));
    assert!(has_type_error(
        "enum E { A }\nfn f(e: E) -> Int { match e { A => { return \"x\" } }\n  1 }"
    ));
    assert!(
        !has_type_error("fn f() -> Text { var g = |n| { return n }\n  g(\"a\") }"),
        "a closure's return is checked against the closure"
    );
    assert!(
        has_type_error("fn f() -> Text { var g = |n| { if true { return 1 }\n  \"t\" }\n  \"a\" }"),
        "…and it is still checked there"
    );
}

#[test]
fn a_function_whose_body_diverges_matches_any_declared_result() {
    for src in [
        "fn f() -> Int { panic(\"x\") }",
        "fn f() -> Text { panic(\"x\") }",
        "fn f(c: Bool) -> Int { if c { return 1 } else { panic(\"x\") } }",
        "fn f() -> Int { return 1 }",
    ] {
        assert!(
            !has_type_error(src),
            "`{src}` reported {:?}",
            analyze(src)
                .diagnostics
                .iter()
                .map(|d| format!("{} {}", code_of(d), d.message))
                .collect::<Vec<_>>()
        );
    }
}

#[test]
fn expression_before_trailing_statement_is_not_the_block_value() {
    let src = "fn bad() -> Int { 1; var x = 2 }";
    assert!(
        has_type_error(src),
        "inference and lowering must agree on the actual trailing expression"
    );
}

#[test]
fn a_blocks_value_is_its_last_statement_and_only_if_it_is_an_expression() {
    assert_eq!(scheme_of("var b = { 1 }", "b").as_deref(), Some("Int"));
    assert_eq!(
        scheme_of("var b = { var x = 1; 2 }", "b").as_deref(),
        Some("Int")
    );
    for src in [
        "var b = { 1; var x = 2 }",
        "var b = { 1; var x = 2 }",
        "fn f() -> Unit { var x = 0; { 1; x = 2 } }",
    ] {
        assert!(
            !has_type_error(src),
            "`{src}` should be clean: {:?}",
            analyze(src)
                .diagnostics
                .iter()
                .map(|d| format!("{} {}", code_of(d), d.message))
                .collect::<Vec<_>>()
        );
    }
    assert_eq!(
        scheme_of("var b = { 1; var x = 2 }", "b").as_deref(),
        Some("Unit"),
        "a `var` after the expression makes the block Unit"
    );
    assert_eq!(
        scheme_of("var b = { 1; \"two\" }", "b").as_deref(),
        Some("Text")
    );
    assert_eq!(scheme_of("var b = { }", "b").as_deref(), Some("Unit"));
}

#[test]
fn control_flow_terminators_require_a_legal_enclosing_context() {
    for src in [
        "return 1",
        "fn main() -> Int { break 1; 0 }",
        "fn main() -> Int { continue; 0 }",
    ] {
        assert!(
            !is_clean_with_lower(src),
            "out-of-context control flow must be rejected: {src}"
        );
    }
}

#[test]
fn a_terminator_needs_the_right_enclosing_context() {
    let codes = |src: &str| -> Vec<String> {
        analyze(src)
            .diagnostics
            .iter()
            .map(|d| code_of(d))
            .collect()
    };
    assert!(codes("return 1").contains(&"Y011".to_string()));
    assert!(codes("var x = 1\nreturn").contains(&"Y011".to_string()));
    for src in [
        "fn f() -> Int { break\n  0 }",
        "fn f() -> Int { continue\n  0 }",
        "break",
        "fn f(c: Bool) -> Int { if c { break }\n  0 }",
    ] {
        assert!(
            codes(src).contains(&"Y012".to_string()),
            "expected Y012 for `{src}`, got {:?}",
            codes(src)
        );
    }
    assert!(
        codes("fn f(v: Vec[Int]) -> Int { for x in v { var g = |n| { break }\n  0 }\n  0 }")
            .contains(&"Y012".to_string()),
        "a `break` inside a closure cannot leave a loop outside it"
    );
    assert!(
        !codes("fn f() -> Int { var g = |n| { return n }\n  g(1) }").contains(&"Y011".to_string()),
        "a `return` inside a closure leaves the closure"
    );
    for src in [
        "fn f() -> Int { return 1 }",
        "fn f(v: Vec[Int]) -> Int { for x in v { continue }\n  0 }",
        "fn f(c: Bool) -> Int { while c { break }\n  0 }",
        "fn f() -> Int { loop { break }\n  0 }",
        "fn f(v: Vec[Int]) -> Int { for x in v { if x == 1 { continue } }\n  0 }",
    ] {
        let found = codes(src);
        assert!(
            !found.contains(&"Y011".to_string()) && !found.contains(&"Y012".to_string()),
            "`{src}` is legal, got {found:?}"
        );
    }
}

#[test]
fn expression_loop_uses_its_break_value_type() {
    let src = "fn main() -> Int { loop { break 42 } }";
    assert!(
        !has_type_error(src),
        "an expression loop with `break Int` has type Int"
    );
}

#[test]
fn a_loop_is_the_join_of_the_values_its_breaks_carry() {
    assert_eq!(
        scheme_of("var x = loop { break 42 }", "x").as_deref(),
        Some("Int")
    );
    assert_eq!(
        scheme_of("var x = loop { break \"done\" }", "x").as_deref(),
        Some("Text")
    );
    assert_eq!(
        scheme_of(
            "fn f(c: Bool) -> Int { var x = loop { if c { break 1 } else { break 2 } }\n  x }",
            "x"
        )
        .as_deref(),
        Some("Int")
    );
    assert_eq!(
        scheme_of("var x = loop { break }", "x").as_deref(),
        Some("Unit")
    );
    assert!(
        has_type_error("fn f(c: Bool) -> Int { var x = loop { if c { break }\n  break 1 }\n  0 }"),
        "a bare `break` contributes Unit and cannot agree with `break 1`"
    );
    assert!(
        has_type_error(
            "fn f(c: Bool) -> Int { var x = loop { if c { break 1 }\n  break \"two\" }\n  0 }"
        ),
        "two `break`s carrying different types disagree"
    );
    assert_eq!(
        scheme_of(
            "var x = loop { var inner = loop { break 1 }\n  break \"outer\" }",
            "x"
        )
        .as_deref(),
        Some("Text")
    );
    assert_eq!(
        scheme_of(
            "var x = loop { var inner = loop { break 1 }\n  break \"outer\" }",
            "inner"
        )
        .as_deref(),
        Some("Int")
    );
}

#[test]
fn a_loop_no_break_leaves_is_never() {
    for src in [
        "fn f(c: Bool) -> Int { if c { 1 } else { loop { } } }",
        "fn f() -> Int { loop { } }",
        "fn f() -> Text { loop { } }",
        "fn f(c: Bool) -> Int { loop { if c { return 1 } } }",
    ] {
        assert!(
            !has_type_error(src),
            "`{src}` should be clean: {:?}",
            analyze(src)
                .diagnostics
                .iter()
                .map(|d| format!("{} {}", code_of(d), d.message))
                .collect::<Vec<_>>()
        );
    }
    assert_eq!(
        scheme_of(
            "fn f(c: Bool) -> Int { var x = loop { if c { return 1 } }\n  x }",
            "x"
        )
        .as_deref(),
        Some("Never"),
        "the bottom type, not Unit and not a fresh variable"
    );
}

#[test]
fn only_a_loop_may_break_with_a_value() {
    let codes = |src: &str| -> Vec<String> {
        analyze(src)
            .diagnostics
            .iter()
            .map(|d| code_of(d))
            .collect()
    };
    for src in [
        "fn f(c: Bool) -> Int { while c { break 1 }\n  0 }",
        "fn f(v: Vec[Int]) -> Int { for x in v { break x }\n  0 }",
    ] {
        let found = codes(src);
        assert!(
            found.contains(&"Y017".to_string()),
            "expected Y017 for `{src}`, got {found:?}"
        );
        assert!(
            !found.contains(&"Y012".to_string()),
            "the loop exists — it is the kind of loop that is wrong: {found:?}"
        );
    }
    for src in [
        "fn f(c: Bool) -> Int { while c { break }\n  0 }",
        "fn f(v: Vec[Int]) -> Int { for x in v { break }\n  0 }",
        "fn f() -> Int { loop { break }\n  0 }",
        "fn f() -> Int { loop { break 1 } }",
    ] {
        assert!(
            !codes(src).contains(&"Y017".to_string()),
            "`{src}` is legal, got {:?}",
            codes(src)
        );
    }
    assert!(
        codes("fn f(c: Bool) -> Int { loop { while c { break 1 } }\n  0 }")
            .contains(&"Y017".to_string()),
        "the `break` leaves the `while`, not the `loop` around it"
    );
}

#[test]
fn never_branch_coerces_to_the_other_branch_type() {
    let src = "fn choose(flag: Bool) -> Int { if flag { panic(\"stop\") } else { 1 } }";
    let (analysis, module) = analyze_and_lower(src);
    assert!(
        !analysis
            .diagnostics
            .iter()
            .any(|d| d.code.parts().0 == 'Y'),
        "Never is the bottom type and must not conflict with an Int branch"
    );
    let choose = fn_named(&module, "choose");
    let if_ty = match &choose.body.tail {
        TypedExpr::If { ty, .. } => ty.dup(),
        other => panic!("expected if tail, got {other:?}"),
    };
    assert_eq!(
        analysis.db.render(&if_ty),
        "Int",
        "the branch join itself must choose Int, not merely suppress a mismatch"
    );
}

#[test]
fn a_divergent_branch_is_absorbed_wherever_branches_meet() {
    for src in [
        "fn f(c: Bool) -> Int { if c { panic(\"x\") } else { 1 } }",
        "fn f(c: Bool) -> Int { if c { 1 } else { panic(\"x\") } }",
        "fn f(c: Bool) -> Int { if c { if c { panic(\"x\") } else { 1 } } else { 2 } }",
        "enum E { A, B }\nfn f(e: E) -> Int { match e { A => 1, B => panic(\"x\") } }",
        "enum E { A, B }\nfn f(e: E) -> Int { match e { A => panic(\"x\"), B => 2 } }",
    ] {
        assert!(
            !has_type_error(src),
            "a divergent branch constrains nothing: `{src}` reported {:?}",
            analyze(src)
                .diagnostics
                .iter()
                .map(|d| format!("{} {}", code_of(d), d.message))
                .collect::<Vec<_>>()
        );
    }
    assert_eq!(
        scheme_of(
            "enum E { A, B }\nfn f(e: E) -> Int { var m = match e { A => panic(\"x\"), B => panic(\"y\") }; 0 }",
            "m"
        )
        .as_deref(),
        Some("Never")
    );
}

#[test]
fn two_ordinary_branches_still_have_to_agree() {
    assert!(has_type_error(
        "fn f(c: Bool) -> Int { if c { 1 } else { \"two\" } }"
    ));
    assert!(has_type_error(
        "enum E { A, B }\nfn f(e: E) -> Int { match e { A => 1, B => \"two\" } }"
    ));
}

#[test]
fn parse_requires_text_input() {
    let src = "fn main() -> Int { parse(1, int) }";
    assert!(
        has_type_error(src),
        "the first argument of parse(text, parser) must be Text"
    );
}

#[test]
fn unary_minus_accepts_float_typed_variables() {
    let src = "fn negate(x: Float) -> Float { -x }";
    assert!(
        !has_type_error(src),
        "Float negation must depend on the operand type, not only literal syntax"
    );
}

#[test]
fn float_remainder_is_rejected() {
    let src = "fn bad() -> Float { 5.0 % 2.0 }";
    assert!(
        has_type_error(src),
        "the language defines no `%` operation for Float"
    );
}

#[test]
fn integer_literal_overflow_is_diagnosed() {
    let src = "fn main() -> Int { 9223372036854775808 }";
    assert!(
        !is_clean_with_lower(src),
        "an out-of-range literal must not silently become i64::MAX"
    );
}

#[test]
fn ordering_rejects_bool_operands() {
    let src = "fn bad() -> Bool { true < false }";
    assert!(
        has_type_error(src),
        "supports_ord says Bool has no defined total order"
    );
}

#[test]
fn ordering_rejects_function_operands() {
    let src = "fn id(x: Int) -> Int { x }\nfn bad() -> Bool { id < id }";
    assert!(
        has_type_error(src),
        "function values have no structural ordering"
    );
}

#[test]
fn ordering_rejects_composites_without_a_matching_runtime_lowering() {
    let src = "fn bad() -> Bool { (1, 2) < (1, 3) }";
    assert!(
        has_type_error(src),
        "composite ordering cannot be admitted while MIR reinterprets the payload as one i64"
    );
}

#[test]
fn prelude_assert_requires_bool() {
    let src = "fn main() -> Unit { assert(1) }";
    assert!(
        has_type_error(src),
        "prelude calls need real schemes instead of unconstrained fresh types"
    );
}

#[test]
fn each_control_builtin_has_the_type_its_contract_needs() {
    assert!(!has_type_error("fn main() -> Unit { assert(true) }"));
    assert!(has_type_error("fn main() -> Unit { assert(1) }"));
    assert!(has_type_error("fn main() -> Unit { assert(\"yes\") }"));
    assert!(has_type_error("fn main() -> Int { assert(true) }"));
    assert!(!has_type_error("fn main() -> Int { dbg(1) }"));
    assert!(!has_type_error("fn main() -> Text { dbg(\"x\") }"));
    assert!(has_type_error("fn main() -> Text { dbg(1) }"));
    assert!(!has_type_error("fn main() -> Int { dbg(1) + 2 }"));
    assert!(!has_type_error("fn main() -> Int { panic(\"stop\") }"));
    assert!(!has_type_error("fn main() -> Unit { panic(1) }"));
    assert!(!has_type_error(
        "fn f(c: Bool) -> Int { if c { 1 } else { panic(\"stop\") } }"
    ));
}

#[test]
fn each_control_builtin_reaches_the_backend() {
    assert!(is_clean_with_lower("fn main() -> Unit { panic(\"stop\") }"));
    assert!(is_clean_with_lower("fn main() -> Unit { assert(true) }"));
    assert!(is_clean_with_lower("fn main() -> Int { dbg(7) }"));
}

#[test]
fn each_numeric_helper_has_the_int_type_its_contract_needs() {
    assert!(!has_type_error("fn main() -> Int { abs(-5) }"));
    assert!(!has_type_error("fn main() -> Int { sign(-9) }"));
    assert!(!has_type_error("fn main() -> Int { min(3, 7) }"));
    assert!(!has_type_error("fn main() -> Int { max(3, 7) }"));
    assert!(!has_type_error("fn main() -> Int { clamp(11, 0, 10) }"));
    assert!(!has_type_error("fn main() -> Int { gcd(12, 18) }"));
    assert!(!has_type_error("fn main() -> Int { lcm(4, 6) }"));
    assert!(has_type_error("fn main() -> Text { abs(-5) }"));
    assert!(has_type_error("fn main() -> Bool { min(3, 7) }"));
    assert!(has_type_error("fn main() -> Float { gcd(12, 18) }"));
    assert!(has_type_error("fn main() -> Int { abs(\"x\") }"));
    assert!(has_type_error("fn main() -> Int { sign(1.5) }"));
    assert!(has_type_error("fn main() -> Int { min(3, \"7\") }"));
    assert!(has_type_error("fn main() -> Int { max(true, 7) }"));
    assert!(has_type_error("fn main() -> Int { clamp(11, 0, 1.0) }"));
    assert!(has_type_error("fn main() -> Int { lcm(4.0, 6.0) }"));
    assert!(has_type_error("fn main() -> Int { min(3) }"));
    assert!(has_type_error("fn main() -> Int { min(3, 4, 5) }"));
    assert!(has_type_error("fn main() -> Int { abs(1, 2) }"));
    assert!(has_type_error("fn main() -> Int { clamp(11, 0) }"));
    assert!(!has_type_error("fn main() -> Float { (0.0 - 1.5).abs() }"));
    assert!(!has_type_error("fn main() -> Float { 1.5.min(2.5) }"));
}

#[test]
fn a_numeric_helper_composes_like_any_int_expression() {
    assert!(!has_type_error(
        "fn manhattan(ax: Int, ay: Int, bx: Int, by: Int) -> Int {\n\
         \x20   abs(ax - bx) + abs(ay - by)\n\
         }"
    ));
    assert!(!has_type_error(
        "fn spread(dx: Int, dy: Int) -> Int { max(abs(dx), abs(dy)) }"
    ));
    assert!(!has_type_error(
        "fn take(n: Int) -> Int { n }\n\
         fn main() -> Int { take(clamp(gcd(12, 18), 0, 10)) }"
    ));
    assert!(has_type_error(
        "fn take(t: Text) -> Text { t }\n\
         fn main() -> Text { take(sign(-1)) }"
    ));
}

#[test]
fn a_ranges_bounds_are_ints_and_a_range_is_a_collection_of_them() {
    assert!(!has_type_error("fn f() -> Range { 0..5 }"));
    assert!(!has_type_error("fn f() -> Range { 0..=5 }"));
    assert!(!has_type_error("fn f(n: Int) -> Range { 0..n - 1 }"));
    assert!(has_type_error("fn f() -> Int { 0..5 }"));
    assert!(has_type_error("fn f() -> Vec[Int] { 0..5 }"));
    assert!(has_type_error("fn f() -> Range { \"a\"..5 }"));
    assert!(has_type_error("fn f() -> Range { 0..\"z\" }"));
    assert!(has_type_error("fn f() -> Range { 0.0..1.0 }"));
    assert!(has_type_error("fn f() -> Range { true..false }"));
    assert!(has_type_error("fn f(v: Vec[Int]) -> Range { 0..v }"));
    assert!(!has_type_error(
        "fn f() -> Unit { for i in 0..3 { out(i + 1) } }"
    ));
    assert!(has_type_error(
        "fn f() -> Unit { for i in 0..3 { out(i + \"x\") } }"
    ));
    assert!(!has_type_error(
        "fn total(r: Range) -> Int { var t = 0\n for i in r { t = t + i }\n t }\n\
         fn main() -> Int { total(0..4) }"
    ));
}

#[test]
fn a_range_is_an_ordinary_value() {
    assert!(!has_type_error(
        "fn f() -> Unit { var r = 0..5\n for i in r { out(i) } }"
    ));
    assert!(!has_type_error(
        "fn widen(r: Range) -> Range { r }\n\
         fn main() -> Range { widen(1..2) }"
    ));
    assert!(!has_type_error(
        "fn main() -> Unit { var m = Map()\n m.insert(0..3, 1) }"
    ));
    assert!(!has_type_error(
        "fn main() -> Unit { var s = Set()\n s.insert(0..3) }"
    ));
    assert!(!has_type_error("fn f() -> Bool { (0..3) == (0..3) }"));
    assert!(has_type_error("fn f() -> Bool { (0..3) < (1..4) }"));
}

#[test]
fn a_bare_nullary_collection_name_is_the_type_it_names() {
    assert!(has_type_error("fn f(r: Range) -> Int { r }"));
    assert!(has_type_error("fn f(b: BitSet) -> Int { b }"));
    assert!(has_type_error("fn f() -> Range { 1 }"));
    assert!(!has_type_error("fn f(r: Range) -> Range { r }"));
    assert!(!has_type_error("fn f() -> Range { 0..1 }"));
    assert!(!has_type_error("fn f() -> BitSet { BitSet() }"));
    assert!(has_type_error("fn f(r: Range) -> Unit { out(r + 1) }"));
    assert!(!has_type_error("fn f(v: Vec[Range]) -> Vec[Range] { v }"));
    assert!(has_type_error(
        "fn f() -> Unit { var r: Range = 5\n out(r) }"
    ));
    let codes: Vec<u32> = analyze("fn f(v: Vec) -> Int { 1 }")
        .diagnostics
        .iter()
        .filter(|d| d.code.parts().0 == 'Y')
        .map(|d| number_of(d))
        .collect();
    assert!(
        codes.contains(&7),
        "a bracket-less `Vec` must report its missing argument as Y007, got {codes:?}"
    );
}

#[test]
fn each_numeric_helper_reaches_the_backend() {
    for src in [
        "fn main() -> Int { abs(-5) }",
        "fn main() -> Int { sign(-9) }",
        "fn main() -> Int { min(3, 7) }",
        "fn main() -> Int { max(3, 7) }",
        "fn main() -> Int { clamp(11, 0, 10) }",
        "fn main() -> Int { gcd(12, 18) }",
        "fn main() -> Int { lcm(4, 6) }",
    ] {
        assert!(is_clean_with_lower(src), "did not lower: {src}");
    }
}

#[test]
fn each_graph_helper_has_the_signature_its_contract_needs() {
    assert!(!has_type_error(&format!(
        "{STEPS}fn main() -> Vec[Int] {{ bfs(1, |n| steps(n)) }}"
    )));
    assert!(!has_type_error(&format!(
        "{STEPS}fn main() -> Vec[Int] {{ dfs(1, |n| steps(n)) }}"
    )));
    assert!(!has_type_error(&format!(
        "{STEPS}fn main() -> Set[Int] {{ flood_fill(1, |n| steps(n)) }}"
    )));
    assert!(!has_type_error(&format!(
        "{STEPS}fn main() -> Map[Int, Int] {{ dijkstra(1, |n| steps(n), |a, b| 1) }}"
    )));
    assert!(!has_type_error(&format!(
        "{STEPS}fn main() -> Option[Int] {{ bfs_distance(1, |n| steps(n), |n| n == 9) }}"
    )));
    assert!(!has_type_error(&format!(
        "{STEPS}fn main() -> Option[Int] \
         {{ a_star(1, |n| steps(n), |a, b| 1, |n| 0, |n| n == 9) }}"
    )));
    assert!(has_type_error(&format!(
        "{STEPS}fn main() -> Set[Int] {{ bfs(1, |n| steps(n)) }}"
    )));
    assert!(has_type_error(&format!(
        "{STEPS}fn main() -> Vec[Int] {{ flood_fill(1, |n| steps(n)) }}"
    )));
    assert!(has_type_error(&format!(
        "{STEPS}fn main() -> Int {{ bfs_distance(1, |n| steps(n), |n| n == 9) }}"
    )));
    assert!(has_type_error(&format!(
        "{STEPS}fn main() -> Set[Int] {{ dijkstra(1, |n| steps(n), |a, b| 1) }}"
    )));
    assert!(has_type_error(&format!("{STEPS}fn main() {{ bfs(1) }}")));
    assert!(has_type_error(&format!(
        "{STEPS}fn main() {{ bfs(1, |n| steps(n), |n| true) }}"
    )));
    assert!(has_type_error(&format!(
        "{STEPS}fn main() {{ bfs_distance(1, |n| steps(n)) }}"
    )));
    assert!(has_type_error(&format!(
        "{STEPS}fn main() {{ a_star(1, |n| steps(n), |a, b| 1, |n| 0) }}"
    )));
}

#[test]
fn a_graph_helpers_closures_agree_with_each_other_about_the_state() {
    assert!(has_type_error(
        "fn steps(n: Int) -> Vec[Text] { Vec() }\n\
         fn main() { bfs(1, |n| steps(n)) }"
    ));
    assert!(has_type_error(&format!(
        "{STEPS}fn main() {{ bfs(\"a\", |n| steps(n)) }}"
    )));
    assert!(has_type_error(&format!(
        "{STEPS}fn main() {{ bfs_distance(1, |n| steps(n), |n| n + 1) }}"
    )));
    assert!(has_type_error(&format!(
        "{STEPS}fn main() {{ dijkstra(1, |n| steps(n), |a, b| true) }}"
    )));
    assert!(has_type_error(&format!(
        "{STEPS}fn main() {{ a_star(1, |n| steps(n), |a, b| 1, |n| \"far\", |n| n == 9) }}"
    )));
    assert!(has_type_error(&format!(
        "{STEPS}fn main() {{ dijkstra(1, |n| steps(n), |a| 1) }}"
    )));
    assert!(has_type_error(&format!("{STEPS}fn main() {{ bfs(1, 2) }}")));
}

#[test]
fn a_graph_helpers_state_must_be_one_the_walk_can_remember() {
    let codes: Vec<u32> = analyze(
        "fn steps(v: Vec[Int]) -> Vec[Vec[Int]] { Vec() }\n\
         fn main() { var start = Vec()\n  start.push(1)\n  bfs(start, |v| steps(v)) }",
    )
    .diagnostics
    .iter()
    .filter(|d| d.code.parts().0 == 'Y')
    .map(|d| number_of(d))
    .collect();
    assert!(
        codes.contains(&14),
        "a mutable state type must be the same Y014 a Map key is, got {codes:?}"
    );
    for state in ["Vec[Int]", "Set[Int]", "Map[Int, Int]", "Deque[Int]"] {
        let src = format!(
            "fn steps(v: {state}) -> Vec[{state}] {{ Vec() }}\n\
             fn walk(start: {state}) {{ bfs(start, |v| steps(v)) }}"
        );
        assert!(has_type_error(&src), "a {state} state was accepted");
    }
    assert!(!has_type_error(
        "struct P { x: Int, y: Int }\n\
         fn steps(p: P) -> Vec[P] { Vec() }\n\
         fn main() { dfs(P { x: 0, y: 0 }, |p| steps(p)) }"
    ));
    assert!(!has_type_error(
        "fn steps(t: Text) -> Vec[Text] { Vec() }\n\
         fn main() { flood_fill(\"a\", |t| steps(t)) }"
    ));
}

#[test]
fn a_graph_state_requirement_reaches_through_a_generic_function() {
    assert!(has_type_error(
        "fn walk(start, step) { bfs(start, step) }\n\
         fn steps(v: Vec[Int]) -> Vec[Vec[Int]] { Vec() }\n\
         fn main() { var s = Vec()\n  s.push(1)\n  walk(s, |v| steps(v)) }"
    ));
    assert!(!has_type_error(&format!(
        "fn walk(start, step) {{ bfs(start, step) }}\n\
         {STEPS}fn main() {{ walk(1, |n| steps(n)) }}"
    )));
}

#[test]
fn each_graph_helper_reaches_the_backend() {
    for src in [
        "fn main() -> Vec[Int] { bfs(1, |n| steps(n)) }",
        "fn main() -> Vec[Int] { dfs(1, |n| steps(n)) }",
        "fn main() -> Set[Int] { flood_fill(1, |n| steps(n)) }",
        "fn main() -> Map[Int, Int] { dijkstra(1, |n| steps(n), |a, b| 1) }",
        "fn main() -> Option[Int] { bfs_distance(1, |n| steps(n), |n| n == 9) }",
        "fn main() -> Option[Int] { a_star(1, |n| steps(n), |a, b| 1, |n| 0, |n| n == 9) }",
    ] {
        let program = format!("{STEPS}{src}");
        assert!(is_clean_with_lower(&program), "did not lower: {src}");
    }
}

#[test]
fn polymorphic_equality_rejects_function_instantiation() {
    let src = "fn equal(a, b) { a == b }\n\
               fn f(x: Int) -> Int { x }\n\
               fn g(x: Int) -> Int { x }\n\
               fn main() -> Bool { equal(f, g) }";
    assert!(
        has_type_error(src),
        "SupportsEq must be retained and checked when T becomes a function"
    );
}

#[test]
fn iterable_constraint_rejects_int_instantiation() {
    let src = "fn drain(values) -> Unit { for value in values { out(value) } }\n\
               fn main() -> Unit { drain(1) }";
    assert!(
        has_type_error_with_lower(src),
        "a generic Iterable constraint cannot disappear after generalization"
    );
}

#[test]
fn collection_method_constrains_unannotated_receiver_parameter() {
    let src = "fn total(values) { values.sum() }\n\
               fn main() -> Int { var values = Vec(); values.push(1); total(values) }";
    assert!(
        !has_type_error_with_lower(src),
        "method use plus the call site should infer a concrete collection receiver"
    );
}

#[test]
fn a_method_on_an_unannotated_receiver_is_resolved_by_the_use_site() {
    let sum = "fn total(values) { values.sum() }\n\
               fn main() -> Int { var values = Vec(); values.push(1); total(values) }";
    assert_eq!(
        scheme_of(sum, "total").as_deref(),
        Some("(Vec[Int]) -> Int")
    );
    let len = "fn size(v) { v.len() }\n\
               fn main() -> Int { var v = Vec(); v.push(1); size(v) }";
    assert_eq!(scheme_of(len, "size").as_deref(), Some("(Vec[Int]) -> Int"));
    let text = "fn size(t) { t.len() }\nfn main() -> Int { size(\"abc\") }";
    assert_eq!(scheme_of(text, "size").as_deref(), Some("(Text) -> Int"));
    let arg = "fn add(v, x) { v.push(x) }\n\
               fn main() -> Unit { var v = Vec(); v.push(1); add(v, 2) }";
    assert_eq!(
        scheme_of(arg, "add").as_deref(),
        Some("(Vec[Int], Int) -> Unit")
    );
    assert!(!has_type_error_with_lower(arg));
    let bad = "fn add(v, x) { v.push(x) }\n\
               fn main() -> Unit { var v = Vec(); v.push(1); add(v, \"s\") }";
    assert!(has_type_error_with_lower(bad));
    let wrong = "fn total(values) -> Text { values.sum() }\n\
                 fn main() -> Text { var v = Vec(); v.push(1); total(v) }";
    assert!(has_type_error_with_lower(wrong));
}

#[test]
fn a_receiver_a_method_was_called_on_is_not_quantified() {
    let two = "fn total(values) { values.sum() }\n\
               fn main() -> Int {\n\
                 var a = Vec()\n\
                 a.push(1)\n\
                 var b = Vec()\n\
                 b.push(1.0)\n\
                 total(b)\n\
                 total(a)\n\
               }";
    assert!(
        has_type_error_with_lower(two),
        "one method call site cannot carry two receiver types"
    );
    let generic = "fn id(x) { x }\n\
                   fn main() -> Int { var t = id(\"s\"); id(1) }";
    assert_eq!(
        scheme_of(generic, "id").as_deref(),
        Some("forall T. (T) -> T")
    );
    assert!(!has_type_error_with_lower(generic));
}

#[test]
fn a_deferred_method_still_carries_its_receivers_own_requirements() {
    let src = "fn store(m, k) -> Unit { m.insert(k, 1) }\n\
               fn main() -> Unit {\n\
                 var m = Map()\n\
                 var key = Vec()\n\
                 key.push(1)\n\
                 store(m, key)\n\
               }";
    let diags = analyze_and_lower_diags(src);
    assert!(
        diags.iter().any(|d| code_of(d) == "Y014"),
        "a Vec key must be refused through a deferred insert, got {:?}",
        diags
            .iter()
            .map(|d| code_of(d))
            .collect::<Vec<_>>()
    );
    let ok = "fn store(m, k) -> Unit { m.insert(k, 1) }\n\
              fn main() -> Unit { var m = Map(); store(m, \"k\") }";
    assert!(!has_type_error_with_lower(ok));
}

#[test]
fn a_derived_receiver_that_resolves_to_a_type_without_the_row_is_reported() {
    for src in [
        "fn f(v) { v[0].len() }\nout(f([1, 2, 3]))",
        "fn f(v) { v.get(0).len() }\nout(f([1, 2, 3]))",
        "fn f(v) -> Unit { for row in v { out(row.len()) } }\nf([1, 2, 3])",
    ] {
        let from_inference: Vec<String> = analyze(src)
            .diagnostics
            .iter()
            .map(|d| code_of(d))
            .collect();
        assert_eq!(
            from_inference,
            vec!["Y110".to_string()],
            "inference must report it, got {from_inference:?} for {src:?}"
        );
        let with_lowering: Vec<String> = analyze_and_lower_diags(src)
            .iter()
            .map(|d| code_of(d))
            .collect();
        assert_eq!(
            with_lowering,
            vec!["Y110".to_string()],
            "one emitter, not two: got {with_lowering:?} for {src:?}"
        );
    }
    let diags = analyze("fn f(v) { v[0].len() }\nout(f([1, 2, 3]))").diagnostics;
    assert_eq!(
        diags.iter().map(|d| d.message.clone()).collect::<Vec<_>>(),
        vec!["no method `len` on type `Int` taking 0 argument(s)"]
    );
}

#[test]
fn a_derived_receiver_does_not_make_the_function_generic() {
    let two = "fn total(values) { values.sum() }\n\
               fn main() -> Int {\n\
                 var a = Vec()\n\
                 a.push(1)\n\
                 var b = Vec()\n\
                 b.push(1.0)\n\
                 total(a)\n\
                 total(b)\n\
               }";
    assert!(
        has_type_error_with_lower(two),
        "one method call site carries one receiver"
    );
    assert_eq!(
        scheme_of(
            "fn total(values) { values.sum() }\n\
             fn main() -> Int { var v = Vec(); v.push(1); total(v) }",
            "total"
        )
        .as_deref(),
        Some("(Vec[Int]) -> Int"),
        "a pinned receiver is still a monotype after the fixpoint"
    );
    let generic = "fn id(x) { x }\n\
                   fn main() -> Int { var t = id(\"s\"); id(1) }";
    assert_eq!(
        scheme_of(generic, "id").as_deref(),
        Some("forall T. (T) -> T")
    );
    assert!(!has_type_error_with_lower(generic));
}

#[test]
fn a_derived_receiver_is_pinned_too() {
    let two = "fn pick(t, i, j) { t[i][j] }\n\
               out(pick([[7, 8]], 0, 0))\n\
               out(pick([[\"a\"]], 0, 0))";
    assert!(
        has_type_error_with_lower(two),
        "a derived receiver is pinned, so one `pick` cannot serve two element types"
    );
    let items = "fn widths(rows) -> Unit { for row in rows { out(row.len()) } }\n\
                 widths([[1, 2]])\n\
                 widths([\"ab\", \"c\"])";
    assert!(
        has_type_error_with_lower(items),
        "the item pin survives the fixpoint"
    );
}

#[test]
fn a_method_that_cannot_resolve_is_reported_by_inference_and_only_once() {
    for src in [
        "var v = Vec[Int]()\nv.push(1)\nout(v.nope())",
        "fn f(x) { x.nope() }\nfn main() -> Unit { f(1) }",
        "fn f(x) { x.nope() }\nfn main() -> Unit { }",
        "fn f(x) -> Unit { x.push(1) }\nfn main() -> Unit { f(3) }",
    ] {
        let from_inference: Vec<String> = analyze(src)
            .diagnostics
            .iter()
            .map(|d| code_of(d))
            .collect();
        assert_eq!(
            from_inference,
            vec!["Y110".to_string()],
            "inference must report it, got {from_inference:?} for {src:?}"
        );
        let with_lowering: Vec<String> = analyze_and_lower_diags(src)
            .iter()
            .map(|d| code_of(d))
            .collect();
        assert_eq!(
            with_lowering,
            vec!["Y110".to_string()],
            "one emitter, not two: got {with_lowering:?} for {src:?}"
        );
    }
}

#[test]
fn the_report_names_the_receiver_type() {
    let diags = analyze("var v = Vec[Int]()\nv.push(1)\nout(v.nope())").diagnostics;
    assert_eq!(
        diags.iter().map(|d| d.message.clone()).collect::<Vec<_>>(),
        vec!["no method `nope` on type `Vec[Int]` taking 0 argument(s)"],
    );
    let diags = analyze("fn f(x) -> Unit { x.push(1) }\nfn main() -> Unit { f(3) }").diagnostics;
    assert_eq!(
        diags.iter().map(|d| d.message.clone()).collect::<Vec<_>>(),
        vec!["no method `push` on type `Int` taking 1 argument(s)"],
    );
    let diags = analyze("fn f(x) { x.nope() }\nfn main() -> Unit { }").diagnostics;
    assert_eq!(
        diags.iter().map(|d| d.message.clone()).collect::<Vec<_>>(),
        vec!["no type has a method `nope` taking 0 argument(s)"],
    );
}

#[test]
fn a_name_the_catalog_holds_is_still_deferred() {
    let src = "fn total(values) { values.sum() }\nfn main() -> Unit { }";
    assert!(
        analyze(src).diagnostics.is_empty(),
        "an uncalled generic over a real catalog name must check clean: {:?}",
        analyze(src).diagnostics
    );
    assert!(
        is_clean_with_lower(src),
        "…and must stay clean once lowering runs, which it did not before ADR-093"
    );
    assert_eq!(scheme_of(src, "total").as_deref(), Some("(?T) -> ?U"));
    let called = "fn total(values) { values.sum() }\n\
                  fn main() -> Unit { var v = Vec[Int]()\nv.push(1)\nout(total(v)) }";
    assert!(is_clean_with_lower(called));
}

#[test]
fn a_barrier_declares_what_its_element_must_be() {
    let unorderable = "var v = Vec()\nv.push(|x| x + 1)\nv.push(|x| x + 2)\nout(v.sorted())";
    let codes: Vec<String> = analyze(unorderable)
        .diagnostics
        .iter()
        .map(|d| code_of(d))
        .collect();
    assert_eq!(
        codes,
        vec!["Y006".to_string()],
        "`sorted` on an unorderable element is the ordering diagnostic, at `check`"
    );
    let unstable = "var inner = Vec[Int]()\ninner.push(1)\n\
                    var v = Vec()\nv.push(inner)\nout(v.frequencies())";
    let codes: Vec<String> = analyze(unstable)
        .diagnostics
        .iter()
        .map(|d| code_of(d))
        .collect();
    assert_eq!(
        codes,
        vec!["Y014".to_string()],
        "`frequencies` of a mutable element is the key diagnostic, at `check`"
    );
    let unstable_unique = "var inner = Vec[Int]()\ninner.push(1)\n\
                           var v = Vec()\nv.push(inner)\nout(v.unique())";
    assert!(has_type_error(unstable_unique));
    assert!(is_clean_with_lower(
        "var v = Vec[Text]()\nv.push(\"b\")\nout(v.sorted())"
    ));
    assert!(is_clean_with_lower(
        "var v = Vec[Int]()\nv.push(1)\nout(v.frequencies()[1])"
    ));
    assert!(is_clean_with_lower(
        "var v = Vec[Int]()\nv.push(1)\nout(v.unique())"
    ));
}

#[test]
fn a_grouping_answers_a_sequence_of_sequences() {
    for name in ["chunks", "windows"] {
        assert_eq!(
            expr_type(&format!("[1, 2, 3].{name}(2)")),
            "Vec[Vec[Int]]",
            "`{name}` groups without flattening"
        );
        assert_eq!(expr_type(&format!("\"ab\".{name}(1)")), "Vec[Vec[Char]]");
        assert_eq!(expr_type(&format!("(0..4).{name}(2)")), "Vec[Vec[Int]]");
        assert!(is_clean_with_lower(&format!(
            "var v = Vec[Int]()\nv.push(1)\nout(v.{name}(1).map(|g| g.sum()).sum())"
        )));
        assert!(is_clean_with_lower(&format!(
            "fn size() -> Int {{ 2 }}\nfn main() -> Unit {{ out([1, 2].{name}(size()).count()) }}"
        )));
        assert!(has_type_error(&format!("out([1, 2].{name}(\"two\"))")));
    }
    assert!(is_clean_with_lower(
        "var v = Vec()\nv.push(|x| x + 1)\nv.push(|x| x + 2)\nout(v.windows(2).count())"
    ));
}

#[test]
fn a_barrier_bound_is_checked_at_the_call_site_that_pins_it() {
    let later = "var v = Vec()\nvar s = v.sorted()\nv.push(|x| x + 1)\nout(1)";
    let codes: Vec<String> = analyze(later)
        .diagnostics
        .iter()
        .map(|d| code_of(d))
        .collect();
    assert_eq!(
        codes,
        vec!["Y006".to_string()],
        "an element pinned after the `sorted()` still has to satisfy the bound"
    );
    assert!(is_clean_with_lower(
        "var v = Vec()\nvar s = v.sorted()\nv.push(7)\nout(s.len())"
    ));
    let ok = "fn top(v) { v.sorted() }\n\
              fn main() -> Unit { var v = Vec[Int]()\nv.push(2)\nout(top(v)) }";
    assert!(
        is_clean_with_lower(ok),
        "an orderable instantiation is fine"
    );
    let bad = "fn top(v) { v.sorted() }\n\
               fn main() -> Unit { var v = Vec()\nv.push(|x| x + 1)\nout(top(v)) }";
    assert!(
        has_type_error(bad),
        "the bound has to be answered where the call site pins the element"
    );
}

#[test]
fn sum_requires_int_elements() {
    let src = "fn main() -> Int {\n\
                 var values = Vec()\n\
                 values.push(true)\n\
                 values.sum()\n\
               }";
    assert!(
        has_type_error_with_lower(src),
        "sum/product/min/max lower as Int operations and must reject Bool elements"
    );
}

#[test]
fn the_int_sinks_require_int_elements() {
    for sink in ["sum", "product", "min", "max"] {
        for (elem, push) in [("Bool", "true"), ("Float", "1.5"), ("Text", "\"a\"")] {
            let src = format!("fn main() -> Int {{ var v = Vec(); v.push({push}); v.{sink}() }}");
            assert!(
                has_type_error_with_lower(&src),
                "`{sink}` on a Vec[{elem}] must be rejected"
            );
        }
        let ok = format!("fn main() -> Int {{ var v = Vec(); v.push(1); v.{sink}() }}");
        assert!(!has_type_error_with_lower(&ok), "`{sink}` on Vec[Int]");
    }
}

#[test]
fn a_sinks_element_bound_pins_an_unresolved_pipeline_stage() {
    assert!(has_type_error_with_lower(
        "fn main() -> Int { var v = Vec(); v.push(1); v.map(|x| \"s\").sum() }"
    ));
    assert!(!has_type_error_with_lower(
        "fn main() -> Int { var v = Vec(); v.push(1); v.map(|x| x * 2).sum() }"
    ));
    assert!(has_type_error_with_lower(
        "fn total(values) { values.sum() }\n\
         fn main() -> Int { var v = Vec(); v.push(true); total(v) }"
    ));
}

#[test]
fn enumerate_and_zip_report_the_pairs_they_build() {
    let e = "fn main() -> Unit { var v = Vec(); v.push(1); var pairs = v.enumerate(); out(pairs) }";
    assert_eq!(scheme_of(e, "pairs").as_deref(), Some("Vec[(Int, Int)]"));
    let text =
        "fn main() -> Unit { var v = Vec(); v.push(\"a\"); var pairs = v.enumerate(); out(pairs) }";
    assert_eq!(
        scheme_of(text, "pairs").as_deref(),
        Some("Vec[(Int, Text)]")
    );
    let z = "fn main() -> Unit {\n\
               var a = Vec()\n\
               a.push(1)\n\
               var b = Vec()\n\
               b.push(\"s\")\n\
               var pairs = a.zip(b)\n\
               out(pairs)\n\
             }";
    assert_eq!(scheme_of(z, "pairs").as_deref(), Some("Vec[(Int, Text)]"));
    assert!(!has_type_error_with_lower(z));
}

#[test]
fn a_compound_assignments_numeric_requirement_survives_generalization() {
    let bad = "fn twice(a) -> Unit { var acc = a\n  acc += a }\n\
               fn main() -> Unit { twice(true) }";
    let codes: Vec<String> = analyze_and_lower_diags(bad)
        .iter()
        .map(|d| code_of(d))
        .collect();
    assert!(
        codes.iter().any(|c| c == "Y015"),
        "expected Y015 at the call that chose Bool, got {codes:?}"
    );
    let ok = "fn twice(a) -> Unit { var acc = a\n  acc += a }\n\
              fn main() -> Unit { twice(2) }";
    assert!(!has_type_error_with_lower(ok));
    let concrete: Vec<String> = analyze_and_lower_diags("var flag = true\nflag += false")
        .iter()
        .map(|d| code_of(d))
        .collect();
    assert!(
        concrete.iter().any(|c| c == "Y010"),
        "a known target keeps Y010, got {concrete:?}"
    );
}

#[test]
fn map_key_must_be_hashable() {
    let src = "fn id(x: Int) -> Int { x }\n\
               fn main() -> Unit { var map = Map(); map.insert(id, 1) }";
    assert!(
        has_type_error_with_lower(src),
        "function values cannot be structural map keys"
    );
}

#[test]
fn mutable_collection_cannot_be_used_as_a_map_key() {
    let src = "fn main() -> Unit {\n\
                 var key = Vec()\n\
                 key.push(1)\n\
                 var table = Map()\n\
                 table.insert(key, \"stored\")\n\
                 key.push(2)\n\
               }";
    assert!(
        has_type_error_with_lower(src),
        "a mutable collection cannot be a structural map key"
    );
}

#[test]
fn mutable_collection_cannot_be_used_as_a_set_element() {
    let src = "fn main() -> Unit {\n\
                 var key = Vec()\n\
                 key.push(1)\n\
                 var values = Set()\n\
                 values.insert(key)\n\
                 key.push(2)\n\
               }";
    assert!(
        has_type_error_with_lower(src),
        "a mutable collection cannot be a structural set key"
    );
}

#[test]
fn heap_element_must_be_orderable() {
    let src = "fn id(x: Int) -> Int { x }\n\
               fn main() -> Unit { var heap = MinHeap(); heap.push(id) }";
    assert!(
        has_type_error_with_lower(src),
        "function values cannot be ordered by a heap"
    );
}

#[test]
fn heap_element_orderability_agrees_with_the_runtime() {
    let src = "fn main() -> Unit {\n\
                 var heap = MinHeap()\n\
                 heap.push(\"z\")\n\
                 heap.push(\"a\")\n\
               }";
    assert!(
        !has_type_error_with_lower(src),
        "Text is orderable in both halves now: the capability and the descriptor"
    );
}

#[test]
fn map_get_returns_option() {
    let src = "fn lookup(map: Map[Text, Int]) -> Option[Int] { map.get(\"key\") }";
    assert!(
        !has_type_error(src),
        "normal map absence is represented by Option[V], not a dynamically typed Unit/V result"
    );
}

#[test]
fn lowered_polymorphic_call_result_uses_the_callsite_instantiation() {
    let src = "fn id(value) { value }\nfn main() -> Float { id(1.5) }";
    let (analysis, module) = analyze_and_lower(src);
    let main = fn_named(&module, "main");
    let call_ty = match &main.body.tail {
        TypedExpr::Call { ty, .. } => ty.dup(),
        other => panic!("expected call tail, got {other:?}"),
    };
    assert_eq!(
        analysis.db.render(&call_ty),
        "Float",
        "typed HIR must preserve the concrete result inferred at this call site"
    );
}

#[test]
fn lowered_generic_method_result_uses_the_receiver_instantiation() {
    let src = "fn main() -> Float { var values = Vec(); values.push(1.5); values.get(0) }";
    let (analysis, module) = analyze_and_lower(src);
    let main = fn_named(&module, "main");
    let get_ty = match &main.body.tail {
        TypedExpr::MethodCall { name, ty, .. } if name == "get" => ty.dup(),
        other => panic!("expected get method tail, got {other:?}"),
    };
    assert_eq!(
        analysis.db.render(&get_ty),
        "Float",
        "typed HIR must carry Vec[Float].get as Float"
    );
}

#[test]
fn lowering_respects_a_local_that_shadows_an_enum_variant() {
    let src = "enum E { A }\nfn main() -> Int { var A = 7; A }";
    let (analysis, module) = analyze_and_lower(src);
    let main = fn_named(&module, "main");
    let path_ty = match &main.body.tail {
        TypedExpr::Path { ty, .. } => ty.dup(),
        other => panic!("the shadowing local must remain a Path, got {other:?}"),
    };
    assert_eq!(analysis.db.render(&path_ty), "Int");
}

#[test]
fn forward_call_is_checked_against_later_function_signature() {
    let src = "fn first() -> Int { later(\"wrong\") }\n\
               fn later(value: Int) -> Int { value }";
    assert!(
        has_type_error(src),
        "two-pass resolution must be paired with placeholders for all function signatures"
    );
}

#[test]
fn duplicate_function_declarations_are_rejected() {
    let src = "fn duplicate() -> Int { 1 }\n\
               fn duplicate() -> Int { 2 }\n\
               fn main() -> Int { duplicate() }";
    assert!(
        !is_clean_with_lower(src),
        "two functions cannot be emitted under one JIT symbol name"
    );
}

#[test]
fn a_nested_function_is_reported_as_one() {
    let analysis = analyze("fn main() -> Int { fn local(x: Int) -> Int { x }\n local(1) }");
    assert!(
        analysis
            .diagnostics
            .iter()
            .any(|d| d.code == DiagCode::NestedFunction),
        "{:?}",
        analysis.diagnostics
    );
}

#[test]
fn a_duplicate_function_is_reported_once_and_the_first_one_survives() {
    let src = "fn duplicate() -> Int { 1 }\n\
               fn duplicate() -> Int { 2 }\n\
               fn main() -> Int { duplicate() }";
    let analysis = analyze(src);
    let duplicates: Vec<_> = analysis
        .diagnostics
        .iter()
        .filter(|d| d.code == DiagCode::DuplicateDeclaration)
        .collect();
    assert_eq!(duplicates.len(), 1, "{:?}", analysis.diagnostics);
    assert!(
        !analysis
            .diagnostics
            .iter()
            .any(|d| d.code == DiagCode::UnknownName),
        "the call must still resolve: {:?}",
        analysis.diagnostics
    );
}

#[test]
fn shadowing_an_outer_name_is_not_a_redeclaration() {
    for src in [
        "fn main() -> Int { var out = 1\n out }",
        "fn f(duplicate: Int) -> Int { duplicate }\nfn duplicate() -> Int { 1 }\nfn main() -> Int { f(2) }",
    ] {
        let analysis = analyze(src);
        assert!(
            !analysis
                .diagnostics
                .iter()
                .any(|d| d.code == DiagCode::DuplicateDeclaration),
            "{src}: {:?}",
            analysis.diagnostics
        );
    }
}

#[test]
fn record_literal_requires_every_declared_field() {
    let src = "struct Pair { left: Int, right: Int }\n\
               fn main() -> Int { var pair = Pair { left: 1 }; pair.right }";
    assert!(
        !is_clean_with_lower(src),
        "allocating a record with fewer payloads than its schema is invalid"
    );
}

#[test]
fn record_literal_rejects_unknown_fields() {
    let src = "struct Point { x: Int }\n\
               fn side_effect() -> Int { out(\"must not disappear\"); 2 }\n\
               fn main() -> Int { var point = Point { x: 1, typo: side_effect() }; point.x }";
    assert!(
        !is_clean_with_lower(src),
        "an unknown field must be diagnosed instead of deleting its initializer"
    );
}

#[test]
fn record_literal_rejects_duplicate_fields() {
    let src = "struct Point { x: Int }\n\
               fn main() -> Int { var point = Point { x: 1, x: 2 }; point.x }";
    assert!(
        !is_clean_with_lower(src),
        "each record field must be initialized exactly once"
    );
}

#[test]
fn nested_enum_pattern_must_cover_payload_constructors() {
    let src = "enum Flag { On, Off }\n\
               enum Wrapped { Wrap(Flag) }\n\
               fn main() -> Int {\n\
                 var value = Wrap(On)\n\
                 match value { Wrap(On) => 1 }\n\
               }";
    assert!(
        has_type_error_with_lower(src),
        "covering one nested payload constructor is not exhaustive"
    );
}

#[test]
fn duplicate_enum_arm_is_unreachable() {
    let src = "enum E { A, B }\n\
               fn main() -> Int {\n\
                 var value = A\n\
                 match value { A => 1, A => 2, B => 3 }\n\
               }";
    assert!(
        has_type_error_with_lower(src),
        "a duplicate variant arm adds no coverage and must be Y121"
    );
}

#[test]
fn unknown_enum_variant_pattern_is_rejected() {
    let src = "enum E { A }\n\
               fn main() -> Int { var value = A; match value { Typo(payload) => 1 } }";
    assert!(
        !is_clean_with_lower(src),
        "a misspelled variant cannot silently become an exhaustive wildcard"
    );
}

#[test]
fn mixed_template_capture_kinds_are_preserved() {
    let src = "fn main() -> Int {\n\
                 var row = read `{name:word},{port:int}`\n\
                 row.port + 1\n\
               }";
    assert!(
        !has_type_error(src),
        "the `port` capture is Int even when an earlier capture is Word"
    );
    assert_eq!(
        scheme_of("var row = read `{name:word},{port:int}`", "row").as_deref(),
        Some("{ name: Text, port: Int }")
    );
}

#[test]
fn unknown_parser_constructor_is_diagnosed() {
    let src = "var value = read frobnicate(int)";
    assert!(
        has_input_error(src),
        "unknown constructor conversion must emit I010-style feedback"
    );
}

#[test]
fn optional_rejects_extra_arguments() {
    let src = "var value = read optional(int, word)";
    assert!(
        has_input_error(src),
        "special constructors must validate source arity before discarding arguments"
    );
}

#[test]
fn immediately_invoked_closure_boxes_its_mutable_capture() {
    let src = "fn main() -> Int { var count = 0; (|n| { count += n; count })(1) }";
    let (analysis, module) = analyze_and_lower(src);
    let count = analysis
        .names
        .all()
        .iter()
        .find(|s| s.name == "count" && s.kind == SymbolKind::Var)
        .expect("count var")
        .id;
    assert!(
        module.escaping_vars.contains(&count),
        "a closure in Call.callee_expr still requires its captured var to be boxed"
    );
}

#[test]
fn a_capture_first_seen_as_an_assignment_target_keeps_its_type() {
    let src =
        "fn main() -> Int { var total = 0\n  var add = |n| { total = n }\n  add(5)\n  total }";
    let (analysis, module) = analyze_and_lower(src);

    fn find_closure(e: &TypedExpr) -> Option<&TypedExpr> {
        if matches!(e, TypedExpr::Closure { .. }) {
            return Some(e);
        }
        e.children()
            .into_iter()
            .find_map(find_closure)
            .or_else(|| e.blocks().into_iter().find_map(find_closure_in_block))
    }
    fn find_closure_in_block(b: &TypedBlock) -> Option<&TypedExpr> {
        b.stmts
            .iter()
            .find_map(|s| stmt_exprs(s).into_iter().find_map(find_closure))
            .or_else(|| find_closure(&b.tail))
    }

    let TypedItem::Fn(main) = &module.items[0];
    let closure = find_closure_in_block(&main.body).expect("the closure");
    let TypedExpr::Closure { captures, .. } = closure else {
        unreachable!("find_closure returns a closure")
    };
    let total = captures
        .iter()
        .find(|c| c.name == "total")
        .expect("`total` is captured");
    assert_eq!(
        analysis.db.render(&total.ty),
        "Int",
        "the capture carries the binding's type, not a fresh variable"
    );
    assert!(
        matches!(total.kind, CaptureKind::ByCell),
        "a captured `var` is shared through a cell"
    );
}

#[test]
fn a_curried_closures_outer_literal_carries_the_transitive_capture() {
    fn outer_closure(b: &TypedBlock) -> &TypedExpr {
        fn find(e: &TypedExpr) -> Option<&TypedExpr> {
            if matches!(e, TypedExpr::Closure { .. }) {
                return Some(e);
            }
            e.children()
                .into_iter()
                .find_map(find)
                .or_else(|| e.blocks().into_iter().find_map(find_in_block))
        }
        fn find_in_block(b: &TypedBlock) -> Option<&TypedExpr> {
            b.stmts
                .iter()
                .find_map(|s| stmt_exprs(s).into_iter().find_map(find))
                .or_else(|| find(&b.tail))
        }
        find_in_block(b).expect("the outer closure")
    }

    fn captures_of(src: &str) -> Vec<(String, String, CaptureKind)> {
        let (analysis, module) = analyze_and_lower(src);
        let TypedItem::Fn(main) = &module.items[0];
        let TypedExpr::Closure { captures, .. } = outer_closure(&main.body) else {
            unreachable!("outer_closure returns a closure")
        };
        captures
            .iter()
            .map(|c| (c.name.clone(), analysis.db.render(&c.ty), c.kind))
            .collect()
    }

    let bare =
        captures_of("fn main() -> Int { var base = 10\n  var mk = |a| |b| b + base\n  mk(5)(1) }");
    assert_eq!(bare.len(), 1, "the outer closure captures `base`: {bare:?}");
    assert_eq!(bare[0].0, "base");
    assert_eq!(
        bare[0].1, "Int",
        "the capture carries the binding's type; a `Unit` here is the silent hole"
    );
    assert!(matches!(bare[0].2, CaptureKind::ByValue));
    let braced = captures_of(
        "fn main() -> Int { var base = 10\n  var mk = |a| { |b| b + base }\n  mk(5)(1) }",
    );
    assert_eq!(bare, braced, "the two spellings lower to the same captures");
    let cell = captures_of(
        "fn main() -> Int { var base = 10\n  base = 20\n  var mk = |a| |b| b + base\n  mk(5)(1) }",
    );
    assert_eq!(cell.len(), 1);
    assert_eq!(cell[0].0, "base");
    assert!(
        matches!(cell[0].2, CaptureKind::ByCell),
        "a transitively captured reassigned `var` is shared through a cell: {cell:?}"
    );
}

#[test]
fn the_child_walker_reaches_every_expression_position() {
    let src = [
        "struct R { f: Int }\n",
        "enum E { V(Int) }\n",
        "fn main(c: Bool, v: Vec[Int], k: Int) -> Int {\n",
        "  var a = |n| 1\n",                // Var init
        "  var b = |n| 2\n",                // Var init, reassigned below
        "  b = |n| 3\n",                    // Assign value
        "  var d = (|n| 4)(0)\n",           // Call.callee_expr
        "  out(|n| 5)\n",                   // Call.args
        "  var w = v.map(|n| 6)\n",         // MethodCall.args
        "  var y = v.map(|n| 7).len()\n",   // MethodCall.receiver
        "  var t = (|n| 8, |n| 9)\n",       // Tuple.elements
        "  var p = (|n| 10)\n",             // Paren.inner
        "  var u = !(|n| 11)\n",            // Unary.operand
        "  var z = (|n| 12) == (|n| 13)\n", // Bin.lhs / Bin.rhs
        "  var g = R { f: |n| 14 }.f\n",    // RecordLit.fields, FieldGet.receiver
        "  var e = V(|n| 15)\n",            // EnumVariant.args
        "  if (|n| 16)(0) { var h = |n| 17 } else { var i = |n| 18 }\n", // If cond + branches
        "  while c { var j = |n| 19 }\n",   // While.body
        "  for x in v { var l = |n| 20 }\n", // For.body
        "  var m = loop { var o = |n| 21\n  break |n| 22 }\n", // Loop.body, Break.value
        "  var q = match (|n| 23)(0) { _ => |n| 24 }\n", // Match.scrutinee + arms
        "  return |n| 25\n",                // Return.value
        "}\n"
    ].concat();
    let (parsed, _analysis, module) = parse_analyze_and_lower(&src);
    assert!(parsed.diagnostics.is_empty(), "{:?}", parsed.diagnostics);

    fn walk_expr(e: &TypedExpr, found: &mut Vec<String>) {
        if let TypedExpr::Closure { fn_name, .. } = e {
            found.push(fn_name.clone());
        }
        for child in e.children() {
            walk_expr(child, found);
        }
        for block in e.blocks() {
            walk_block(block, found);
        }
    }
    fn walk_block(b: &TypedBlock, found: &mut Vec<String>) {
        for stmt in &b.stmts {
            for e in stmt_exprs(stmt) {
                walk_expr(e, found);
            }
        }
        walk_expr(&b.tail, found);
    }

    let mut found = Vec::new();
    for item in &module.items {
        let TypedItem::Fn(f) = item;
        walk_block(&f.body, &mut found);
    }
    let minted: usize = src.matches("|n|").count();
    assert_eq!(
        found.len(),
        minted,
        "the child walk found {} of {minted} closures: {found:?}",
        found.len()
    );
    let unique: std::collections::HashSet<_> = found.iter().collect();
    assert_eq!(unique.len(), found.len(), "a closure was visited twice");
}

#[test]
fn a_wrong_type_argument_count_is_reported_at_the_annotation() {
    for src in [
        "fn main() -> Int { var m: Map[Text] = Map(); 0 }",
        "fn main() -> Int { var v: Vec[Int, Text] = Vec(); 0 }",
        "fn main() -> Int { var o: Option[Int, Text] = None; 0 }",
    ] {
        let codes: Vec<u32> = analyze(src)
            .diagnostics
            .iter()
            .filter(|d| d.code.parts().0 == 'Y')
            .map(|d| number_of(d))
            .collect();
        assert!(
            codes.contains(&7),
            "`{src}` must report Y007, got {codes:?}"
        );
    }
    assert!(!has_type_error(
        "fn main() -> Int { var m: Map[Text, Int] = Map(); 0 }"
    ));
}

#[test]
fn a_duplicate_field_or_variant_is_rejected() {
    assert!(
        has_type_error("struct Point { x: Int, x: Text }\nfn main() -> Int { 0 }"),
        "a struct may not declare the same field twice"
    );
    assert!(
        has_type_error("enum Tile { Empty, Empty }\nfn main() -> Int { 0 }"),
        "an enum may not declare the same variant twice"
    );
    assert!(
        !has_type_error("struct Point { x: Int, y: Text }\nfn main() -> Int { 0 }"),
        "distinct field names are fine"
    );
}

#[test]
fn a_lowered_branch_carries_the_join_not_its_first_arm() {
    let src = [
        "fn main(c: Bool, n: Int) -> Int {\n",
        "  var a = if c { panic(\"x\") } else { 1 }\n",
        "  var b = match n { 0 => panic(\"y\"), _ => 2 }\n",
        "  a + b\n",
        "}\n"
    ].concat();
    let (analysis, module) = analyze_and_lower(&src);
    assert!(
        analysis.diagnostics.is_empty(),
        "{:?}",
        analysis.diagnostics
    );
    let main = fn_named(&module, "main");
    let mut rendered = Vec::new();
    for stmt in &main.body.stmts {
        if let TypedStmt::Var { name, init, .. } = stmt {
            rendered.push((name.clone(), analysis.db.render(&expr_ty(init))));
        }
    }
    assert_eq!(
        rendered,
        vec![
            ("a".to_string(), "Int".to_string()),
            ("b".to_string(), "Int".to_string()),
        ],
        "a divergent arm is absorbed; reading the first one answers `Never`"
    );
}

#[test]
fn a_constructor_is_a_symbol_kind_not_a_spelling() {
    let a = analyze("enum E { A, B(Int) }\nfn main() -> Int { 0 }\n");
    let kinds: Vec<(String, SymbolKind)> = a
        .names
        .all()
        .iter()
        .filter(|s| ["A", "B", "Some", "None", "E", "main"].contains(&s.name.as_str()))
        .map(|s| (s.name.clone(), s.kind))
        .collect();
    for (name, kind) in &kinds {
        let expected = match name.as_str() {
            "A" | "B" | "Some" | "None" => SymbolKind::EnumVariant,
            "E" => SymbolKind::Enum,
            _ => SymbolKind::Fn,
        };
        assert_eq!(kind, &expected, "`{name}` is {kind:?}");
    }
    assert_eq!(kinds.len(), 6, "every name accounted for: {kinds:?}");
}

#[test]
fn a_local_holding_a_variant_is_not_a_constructor() {
    let src = "enum E { A }\nfn main() -> Int {\n  var A = 7\n  A\n}\n";
    let (_, module) = analyze_and_lower(src);
    let main = fn_named(&module, "main");
    assert!(
        matches!(main.body.tail, TypedExpr::Path { .. }),
        "the local shadows the constructor: {:?}",
        main.body.tail
    );
    assert_eq!(main.body.stmts.len(), 1, "the binding is still there");
}

#[test]
fn a_pattern_that_names_no_variant_is_reported_not_widened() {
    let typo = analyze_and_lower_diags(
        "enum E { A, B }\nfn main() -> Int { match A { Typo(p) => 1, _ => 0 } }",
    );
    assert!(
        typo.iter().any(|d| number_of(d) == 122),
        "a typo is Y122, not a wildcard: {typo:?}"
    );

    let wrong_shape =
        analyze_and_lower_diags("fn main() -> Int { match 1 { Some(n) => n, _ => 0 } }");
    assert!(
        wrong_shape.iter().any(|d| number_of(d) == 123),
        "a constructor pattern on an Int is Y123: {wrong_shape:?}"
    );

    let good =
        analyze_and_lower_diags("enum E { A, B }\nfn main() -> Int { match A { A => 1, B => 2 } }");
    assert!(
        good.is_empty(),
        "the right constructors still work: {good:?}"
    );
}

#[test]
fn a_non_exhaustive_match_is_reported_where_it_is_written() {
    let src = "enum E { A, B }\nfn main() -> Int {\n  var x = A\n  match x { A => 1 }\n}\n";
    let diags = analyze_and_lower_diags(src);
    let y120 = diags
        .iter()
        .find(|d| number_of(d) == 120)
        .expect("a missing `B` arm");
    let span = y120.primary.span;
    let start = span.start as usize;
    assert!(
        src.replace("\\n", "\n")[start..].starts_with("match"),
        "the span points at the `match`, not at byte 0 (start {start})"
    );
}

#[test]
fn a_record_literal_names_every_field_exactly_once() {
    let missing = analyze_and_lower_diags(
        "struct P { x: Int, y: Int }\nfn main() -> Int { var p = P { x: 1 }\n  p.x }",
    );
    assert!(
        missing.iter().any(|d| number_of(d) == 113),
        "a missing field is Y113: {missing:?}"
    );

    let unknown = analyze_and_lower_diags(
        "struct P { x: Int }\nfn main() -> Int { var p = P { x: 1, typo: 2 }\n  p.x }",
    );
    assert!(
        unknown.iter().any(|d| number_of(d) == 114),
        "an unknown field is Y114: {unknown:?}"
    );

    let duplicate = analyze_and_lower_diags(
        "struct P { x: Int }\nfn main() -> Int { var p = P { x: 1, x: 2 }\n  p.x }",
    );
    assert!(
        duplicate.iter().any(|d| number_of(d) == 115),
        "a duplicate field is Y115: {duplicate:?}"
    );

    let good = analyze_and_lower_diags(
        "struct P { x: Int, y: Int }\nfn main() -> Int { var p = P { y: 2, x: 1 }\n  p.x }",
    );
    assert!(
        good.is_empty(),
        "order is not the rule — every field, once: {good:?}"
    );
}

#[test]
fn an_unknown_fields_initializer_is_still_checked() {
    let diags = analyze_and_lower_diags(
        "struct P { x: Int }\n\
         fn main() -> Int { var p = P { x: 1, typo: \"text\" + 1 }\n  p.x }",
    );
    assert!(
        diags.iter().any(|d| number_of(d) == 114),
        "the unknown field itself: {diags:?}"
    );
    assert!(
        diags.len() > 1,
        "its initializer is inferred too, so its own error is reported: {diags:?}"
    );
}

#[test]
fn a_match_covers_every_payload_position_not_just_the_outer_constructor() {
    let enums = "enum Flag { On, Off }\nenum Wrapped { Wrap(Flag) }\n";
    let one = analyze_and_lower_diags(&format!(
        "{enums}fn main() -> Int {{ var v = Wrap(On)\n  match v {{ Wrap(On) => 1 }} }}"
    ));
    assert!(
        one.iter().any(|d| number_of(d) == 120),
        "an uncovered payload constructor is Y120: {one:?}"
    );
    let both = analyze_and_lower_diags(&format!(
        "{enums}fn main() -> Int {{ var v = Wrap(On)\n  \
         match v {{ Wrap(On) => 1, Wrap(Off) => 2 }} }}"
    ));
    assert!(both.is_empty(), "both payload cases are covered: {both:?}");
    let wild = analyze_and_lower_diags(&format!(
        "{enums}fn main() -> Int {{ var v = Wrap(On)\n  match v {{ Wrap(_) => 1 }} }}"
    ));
    assert!(wild.is_empty(), "`Wrap(_)` is all of Wrapped: {wild:?}");
    let bound = analyze_and_lower_diags(&format!(
        "{enums}fn main() -> Int {{ var v = Wrap(On)\n  match v {{ Wrap(f) => 1 }} }}"
    ));
    assert!(bound.is_empty(), "`Wrap(f)` is all of Wrapped: {bound:?}");
    let deep = "enum Flag { On, Off }\nenum Inner { In(Flag) }\nenum Outer { Out(Inner) }\n";
    let nested = analyze_and_lower_diags(&format!(
        "{deep}fn main() -> Int {{ var v = Out(In(On))\n  match v {{ Out(In(On)) => 1 }} }}"
    ));
    assert!(
        nested.iter().any(|d| number_of(d) == 120),
        "the gap is two payloads deep: {nested:?}"
    );
}

#[test]
fn an_arm_is_unreachable_exactly_when_it_adds_no_coverage() {
    let y121 = |src: &str| {
        analyze_and_lower_diags(src)
            .iter()
            .filter(|d| number_of(d) == 121)
            .count()
    };
    assert_eq!(
        y121(
            "enum E { A, B }\nfn main() -> Int { var v = A\n  match v { A => 1, A => 2, B => 3 } }"
        ),
        1,
        "the second `A` is dead, and only it"
    );
    assert_eq!(
        y121("enum E { A, B }\nfn main() -> Int { var v = A\n  match v { _ => 1, A => 2 } }"),
        1,
        "an arm after a catch-all"
    );
    assert_eq!(
        y121(
            "enum Flag { On, Off }\nenum Wrapped { Wrap(Flag) }\n\
             fn main() -> Int { var v = Wrap(On)\n  match v { Wrap(_) => 1, Wrap(On) => 2 } }"
        ),
        1,
        "`Wrap(On)` is inside `Wrap(_)`"
    );
    assert_eq!(
        y121(
            "enum Flag { On, Off }\nenum Wrapped { Wrap(Flag) }\n\
             fn main() -> Int { var v = Wrap(On)\n  match v { Wrap(On) => 1, Wrap(Off) => 2 } }"
        ),
        0,
        "two distinct payload constructors are two live arms"
    );
    assert_eq!(
        y121("fn main() -> Int { match true { true => 1, false => 2, true => 3 } }"),
        1,
        "`true` and `false` are all of Bool"
    );
}

#[test]
fn a_missing_case_is_named_by_the_value_that_is_missing() {
    let diags = analyze_and_lower_diags(
        "enum Flag { On, Off }\nenum Wrapped { Wrap(Flag) }\n\
         fn main() -> Int { var v = Wrap(On)\n  match v { Wrap(On) => 1 } }",
    );
    let y120 = diags
        .iter()
        .find(|d| number_of(d) == 120)
        .expect("a missing `Wrap(Off)`");
    assert!(
        y120.message.contains("Wrap(Off)"),
        "the witness is the whole shape: {}",
        y120.message
    );
    let open = analyze_and_lower_diags("fn main() -> Int { match 1 { 1 => 1, 2 => 2 } }");
    let y120 = open
        .iter()
        .find(|d| number_of(d) == 120)
        .expect("an Int match needs a catch-all");
    assert!(
        y120.message.contains("catch-all"),
        "an open signature names no value: {}",
        y120.message
    );
}

#[test]
fn a_constructor_at_wildcards_is_that_constructor_at_any_payload() {
    for arm in ["Some(_)", "Some(n)"] {
        let src = format!(
            "fn main() -> Int {{ var o = Some(1)\n  match o {{ {arm} => 1, None => 0 }} }}"
        );
        assert!(
            is_clean_with_lower(&src),
            "`{arm}` plus `None` is all of Option[Int]"
        );
    }
    for arm in ["Some", "Some(_)", "Some(n)"] {
        let src = format!("fn main() -> Int {{ var o = Some(1)\n  match o {{ {arm} => 1 }} }}");
        let diags = analyze_and_lower_diags(&src);
        assert!(
            diags.iter().any(|d| number_of(d) == 120),
            "`{arm}` alone leaves `None`: {diags:?}"
        );
    }
}

#[test]
fn a_bare_name_for_a_variant_that_carries_a_payload_is_reported() {
    for src in [
        "enum Bla { A(Int), B, C }\nvar bla = A(3)\nmatch bla { A => {} B => {} C => {} }",
        "enum P { Pair(Int, Int) }\nfn main() -> Int { var p = Pair(1, 2)\n match p { Pair => 1 } }",
        "fn main() -> Int { var o = Some(Some(1))\n \
         match o { Some(Some) => 1, Some(None) => 2, None => 0 } }",
        "enum W { Wrap(Int) }\nfor Wrap in [Wrap(1)] { out(0) }",
    ] {
        let diags = analyze_and_lower_diags(src);
        assert!(
            diags.iter().any(|d| code_of(d) == "Y124"),
            "{src} must be Y124, got {diags:?}"
        );
    }
    let diags = analyze_and_lower_diags(
        "enum P { Pair(Int, Int) }\nfn main() -> Int { var p = Pair(1, 2)\n match p { Pair => 1 } }",
    );
    let y124 = diags
        .iter()
        .find(|d| code_of(d) == "Y124")
        .expect("Y124");
    assert_eq!(
        y124.suggestions
            .first()
            .and_then(|s| s.replacement.as_deref()),
        Some("Pair(_, _)"),
        "the fix writes a wildcard per slot: {y124:?}"
    );
    assert!(is_clean_with_lower(
        "enum T { Empty, Wall }\nfn main() -> Int { var t = Empty\n match t { Empty => 1, Wall => 0 } }"
    ));
    assert!(is_clean_with_lower(
        "enum T { Empty, Wall, Number(Int) }\n\
         fn main() -> Int { var t = Empty\n match t { Empty => 1, other => 2 } }"
    ));
}

#[test]
fn a_mutable_collection_is_not_a_key() {
    for ctor in ["Vec", "Set", "Deque", "MinHeap", "MaxHeap"] {
        let src = format!(
            "fn main() -> Unit {{\n  var key = {ctor}()\n  key.push(1)\n  var m = Map()\n  m.insert(key, 1)\n}}"
        );
        assert!(
            has_type_error(&src),
            "a {ctor} cannot be a Map key, but was accepted"
        );
    }
    assert!(has_type_error(
        "fn main() -> Unit {\n  var key = Vec()\n  key.push(1)\n  var s = Set()\n  s.insert(key)\n}"
    ));
    assert!(has_type_error(
        "fn main() -> Unit {\n  var key = Vec()\n  key.push(1)\n  var c = Counter()\n  c.inc(key)\n}"
    ));
}

#[test]
fn an_immutable_value_is_still_a_key() {
    assert!(!has_type_error(
        "fn main() -> Unit { var m = Map(); m.insert(1, 2) }"
    ));
    assert!(!has_type_error(
        "fn main() -> Unit { var m = Map(); m.insert(\"k\", 2) }"
    ));
    assert!(!has_type_error(
        "fn main() -> Unit { var m = Map(); m.insert((1, 2), 3) }"
    ));
    assert!(!has_type_error(
        "enum Dir { N, S }\nfn main() -> Unit { var s = Set(); s.insert(N) }"
    ));
    assert!(has_type_error(
        "fn main() -> Unit {\n  var v = Vec()\n  v.push(1)\n  var m = Map()\n  m.insert((1, v), 3)\n}"
    ));
}

#[test]
fn a_heap_element_must_be_orderable() {
    assert!(has_type_error(
        "fn id(x: Int) -> Int { x }\nfn main() -> Unit { var h = MinHeap(); h.push(id) }"
    ));
    assert!(has_type_error(
        "fn main() -> Unit { var h = MaxHeap(); h.push((1, 2)) }"
    ));
    assert!(!has_type_error(
        "fn main() -> Unit { var h = MinHeap(); h.push(1) }"
    ));
    assert!(!has_type_error(
        "fn main() -> Unit { var h = MinHeap(); h.push(\"a\") }"
    ));
}

#[test]
fn a_key_requirement_reaches_through_a_generic_function() {
    let src = "fn store(k) -> Unit { var m = Map(); m.insert(k, 1) }\n\
               fn main() -> Unit {\n\
                 var key = Vec()\n\
                 key.push(1)\n\
                 store(key)\n\
               }";
    assert!(
        has_type_error(src),
        "the constraint must travel with `store`'s scheme to its call site"
    );
    let ok = "fn store(k) -> Unit { var m = Map(); m.insert(k, 1) }\n\
              fn main() -> Unit { store(\"key\") }";
    assert!(!has_type_error(ok));
}

#[test]
fn parse_is_syntax_and_its_text_argument_is_the_one_checked() {
    assert!(is_clean_with_lower(
        "fn main() -> Int { parse(\"12\", int) }"
    ));
    let diags = analyze_and_lower_diags("fn main() -> Int { parse(1, int) }");
    assert_eq!(
        diags.len(),
        1,
        "one report, not a name error too: {diags:?}"
    );
    assert_eq!(code_of(&diags[0]), "Y001");
    assert!(is_clean_with_lower(
        "fn main() -> Int {\n  var s = \"12\"\n  parse(s, int)\n}"
    ));
}

#[test]
fn negation_follows_the_operands_type_not_its_spelling() {
    assert!(!has_type_error("fn negate(x: Float) -> Float { -x }"));
    assert!(!has_type_error("fn negate(x: Int) -> Int { -x }"));
    assert!(!has_type_error("fn f() -> Float { -3.5 }"));
    assert!(!has_type_error("fn f() -> Int { -3 }"));
    assert!(has_type_error("fn f(x: Int) -> Float { -x }"));
    assert!(!has_type_error("fn f(x: Float) -> Float { -(x + 1.0) }"));
}

#[test]
fn float_remainder_has_no_operation_to_lower() {
    assert!(has_type_error("fn bad() -> Float { 5.0 % 2.0 }"));
    assert!(has_type_error(
        "fn bad(a: Float, b: Float) -> Float { a % b }"
    ));
    assert!(!has_type_error("fn ok() -> Int { 5 % 2 }"));
    for op in ["+", "-", "*", "/"] {
        let src = format!("fn ok() -> Float {{ 5.0 {op} 2.0 }}");
        assert!(!has_type_error(&src), "Float {op} is defined");
    }
}

#[test]
fn a_compound_remainder_on_a_float_is_the_same_y016_the_binary_one_is() {
    for src in [
        "var f = 5.0\nf %= 2.0",
        "fn bad(x: Float) -> Float { var f = x\nf %= 2.0\nf }",
        "var m = Map()\nm[\"k\"] = 5.0\nm[\"k\"] %= 2.0",
    ] {
        let errors = errors_of(src);
        assert!(
            errors.iter().any(|e| e.contains("Y016")),
            "`{src}` should be a Y016 — `%` is not defined for Float, \
             and `%=` is the same operation.\ngot {errors:?}"
        );
    }
    for op in ["+", "-", "*", "/"] {
        let binding = format!("var f = 5.0\nf {op}= 2.0");
        assert!(!has_type_error(&binding), "Float `{op}=` is defined");
        let subscript = format!("var m = Map()\nm[\"k\"] = 5.0\nm[\"k\"] {op}= 2.0");
        assert!(
            !has_type_error(&subscript),
            "Float `{op}=` through a subscript"
        );
    }
    assert!(!has_type_error("var n = 7\nn %= 4"));
    assert!(!has_type_error(
        "var m = Map()\nm[\"k\"] = 7\nm[\"k\"] %= 4"
    ));
}

#[test]
fn an_out_of_range_int_literal_is_reported_rather_than_saturated() {
    for src in [
        "fn main() -> Int { 9223372036854775808 }",
        "fn main() -> Int { 99999999999999999999999 }",
        "fn main() -> Int { 9_223_372_036_854_775_808 }",
    ] {
        let diags = analyze_and_lower_diags(src);
        assert!(
            diags.iter().any(|d| code_of(d) == "Y013"),
            "{src} must report Y013, got {diags:?}"
        );
    }
    assert!(is_clean_with_lower(
        "fn main() -> Int { 9223372036854775807 }"
    ));
    let diags = analyze_and_lower_diags(
        "fn f(n: Int) -> Int { match n { 99999999999999999999 => 1, _ => 0 } }",
    );
    assert!(diags.iter().any(|d| code_of(d) == "Y013"));
}

#[test]
fn a_fn_name_in_value_position_is_a_function_value() {
    let src = "fn double(n: Int) -> Int { n * 2 }\n\
               fn main() -> Int {\n  var f = double\n  var g = |n| n * 3\n  f(1) + g(1)\n}\n";
    let (analysis, module) = analyze_and_lower(src);
    let main = fn_named(&module, "main");
    let TypedStmt::Var { init, .. } = &main.body.stmts[0] else {
        panic!("expected `var f = double`, got {:?}", main.body.stmts[0]);
    };
    let TypedExpr::FnValue {
        callee_name, ty, ..
    } = init
    else {
        panic!("a `fn` in value position is a function value, got {init:?}");
    };
    assert_eq!(callee_name, "double");
    assert_eq!(analysis.db.render(&ty), "(Int) -> Int");
    let TypedStmt::Var { init, .. } = &main.body.stmts[1] else {
        panic!("expected `var g = |n| n * 3`");
    };
    assert!(
        matches!(init, TypedExpr::Closure { .. }),
        "a closure literal is unchanged: {init:?}"
    );
}

#[test]
fn a_generic_fn_used_as_a_value_is_reported_rather_than_run() {
    let diags =
        analyze_and_lower_diags("fn id(x) { x }\nfn main() -> Int {\n  var f = id\n  f(3)\n}\n");
    assert!(
        diags.iter().any(|d| code_of(d) == "Y018"),
        "expected Y018, got {diags:?}"
    );
    assert!(has_type_error(
        "fn id(x) { x }\nfn main() -> Int {\n  var f = id\n  f(3)\n}\n"
    ));
    assert!(is_clean_with_lower(
        "fn id(x) { x }\nfn main() -> Int {\n  var f = |n| id(n)\n  f(3)\n}\n"
    ));
    assert!(is_clean_with_lower(
        "fn double(n: Int) -> Int { n * 2 }\nfn main() -> Int {\n  var f = double\n  f(3)\n}\n"
    ));
    assert!(is_clean_with_lower(
        "fn id(x) { x }\nfn main() -> Int { id(3) }\n"
    ));
}

#[test]
fn a_builtin_or_constructor_used_as_a_value_is_reported() {
    for src in [
        "fn main() -> Unit { out(pi) }",
        "fn main() -> Int { var h = abs\n h(-3) }",
        "fn main() -> Unit { out(Some) }",
        "enum E { A(Int), B }\nfn main() -> Unit { var f = A\n out(f(1)) }",
        "fn main() -> Unit { out([pi]) }",
        "fn main() -> Unit { out([1, 2].map(abs)) }",
    ] {
        let diags = analyze(src).diagnostics;
        assert!(
            diags.iter().any(|d| code_of(d) == "Y022"),
            "{src} must be Y022, got {diags:?}"
        );
    }
    let nullary = analyze("fn main() -> Unit { out(pi) }").diagnostics;
    assert!(
        nullary[0].message.contains("call it: `pi()`"),
        "{}",
        nullary[0].message
    );
    let unary = analyze("fn main() -> Unit { out(Some) }").diagnostics;
    assert!(
        unary[0].message.contains("write `|x| Some(x)`"),
        "{}",
        unary[0].message
    );
    for src in [
        "fn main() -> Unit { out(pi()) }",
        "fn main() -> Unit { out(abs(-3)) }",
        "fn main() -> Unit { out(Some(1)) }",
        "fn main() -> Unit { out([1, 2].map(|n| abs(n))) }",
    ] {
        assert!(!has_type_error(src), "{src} must be accepted");
    }
    for src in [
        "fn main() -> Unit { out(None) }",
        "enum E { A(Int), B }\nfn main() -> Unit { var f = B\n out(f) }",
    ] {
        assert!(!has_type_error(src), "{src} must be accepted");
    }
}

#[test]
fn a_nested_type_declaration_is_reported_at_the_declaration() {
    for src in [
        "fn main() -> Int {\n  struct Inner { a: Int }\n  3\n}",
        "fn main() -> Int {\n  enum Inner { On, Off }\n  3\n}",
        "fn main() -> Int {\n  if true {\n    struct Inner { a: Int }\n  }\n  3\n}",
    ] {
        let analysis = analyze(src);
        assert!(
            analysis
                .diagnostics
                .iter()
                .any(|d| d.code == DiagCode::NestedFunction),
            "{src} must report N005, got {:?}",
            analysis.diagnostics
        );
    }
    assert!(is_clean_with_lower(
        "struct Point { x: Int, y: Int }\n\
         enum Flag { On, Off }\n\
         fn get(p: Point) -> Int { p.x }\n\
         fn main() -> Int { get(Point { x: 1, y: 2 }) }\n"
    ));
    assert!(is_clean_with_lower(
        "var base = 1\nstruct Point { x: Int }\nvar total = base\nfn main() -> Int { 0 }\n"
    ));
}

#[test]
fn a_pattern_naming_more_values_than_the_variant_holds_is_reported() {
    let diags = analyze_and_lower_diags(
        "enum W { Wrap(Int) }\n\
         fn main() -> Int {\n  var w = Wrap(7)\n  match w { Wrap(a, b) => a }\n}",
    );
    assert!(
        diags.iter().any(|d| code_of(d) == "Y124"),
        "expected Y124, got {diags:?}"
    );
    let diags = analyze_and_lower_diags(
        "enum W { Empty, Wrap(Int) }\n\
         fn main() -> Int {\n  var w = Empty\n  match w { Empty(a) => 1, Wrap(n) => n }\n}",
    );
    assert!(
        diags.iter().any(|d| code_of(d) == "Y124"),
        "a payload-less variant names zero values: {diags:?}"
    );
    for src in [
        "enum W { Wrap(Int) }\nfn main() -> Int { var w = Wrap(7)\n match w { Wrap(_) => 1 } }",
        "enum W { Wrap(Int) }\nfn main() -> Int { var w = Wrap(7)\n match w { Wrap(n) => n } }",
        "enum P { Pair(Int, Int) }\nfn main() -> Int { var p = Pair(1, 2)\n match p { Pair(a) => a } }",
        "enum P { Pair(Int, Int) }\nfn main() -> Int { var p = Pair(1, 2)\n match p { Pair(a, b) => a + b } }",
    ] {
        assert!(is_clean_with_lower(src), "{src} must still be accepted");
    }
}

#[test]
fn an_unannotated_iterated_parameter_is_generic_in_the_iterable_not_its_element() {
    const TOTAL: &str = "fn total(r) { var t = 0\n for i in r { t = t + i }\n t }\n";
    let scheme = scheme_of(TOTAL, "total").expect("total has a scheme");
    assert_eq!(scheme, "forall T. (T) -> Int");
    for call in [
        "fn main() -> Int { var v = Vec()\n v.push(1)\n total(v) }",
        "fn main() -> Int { total(0..4) }",
        "fn main() -> Int { var b = BitSet()\n b.insert(3)\n total(b) }",
        "fn main() -> Int { var d = Deque()\n d.push_back(1)\n total(d) }",
    ] {
        assert!(
            !has_type_error(&format!("{TOTAL}{call}")),
            "must be accepted: {call}"
        );
    }
    assert!(!has_type_error(&format!(
        "{TOTAL}fn main() -> Int {{ var v = Vec()\n v.push(1)\n total(v) + total(0..4) }}"
    )));
    const COPY: &str = "fn copy(vs) { var o = Vec()\n for v in vs { o.push(v) }\n o }\n";
    assert!(!has_type_error(&format!(
        "{COPY}fn main() -> Int {{ var s = Vec()\n s.push(1)\n var d: Vec[Int] = copy(s)\n d.len() }}"
    )));
    assert!(has_type_error(&format!(
        "{COPY}fn main() -> Int {{ var s = Vec()\n s.push(1)\n var d: Vec[Vec[Int]] = copy(s)\n d.len() }}"
    )));
    assert!(!has_type_error(
        "fn total(r: Vec[Int]) -> Int { var t = 0\n for i in r { t = t + i }\n t }"
    ));
    assert!(has_type_error(
        "fn main() -> Unit { for i in 3 { out(i) } }"
    ));
}

#[test]
fn an_iterable_requirement_is_checked_at_the_element_type_the_body_needs() {
    const TOTAL: &str = "fn total(r) { var t = 0\n for i in r { t = t + i }\n t }\n";
    let diags = analyze_and_lower_diags(&format!(
        "{TOTAL}fn main() -> Int {{ var names = Vec()\n names.push(\"a\")\n total(names) }}"
    ));
    let mismatch = diags
        .iter()
        .find(|d| code_of(d) == "Y001")
        .unwrap_or_else(|| panic!("expected Y001, got {diags:?}"));
    assert!(
        mismatch.message.contains("Int") && mismatch.message.contains("Text"),
        "the message names both element types: {}",
        mismatch.message
    );
    assert!(
        !mismatch.notes.is_empty(),
        "the requirement's own span is the note"
    );
    for call in [
        "fn main() -> Int { var m = Map()\n m.insert(1, 2)\n total(m) }",
        "fn main() -> Int { var v = Vec()\n v.push(1.5)\n total(v) }",
        "fn main() -> Int { var s = Set()\n s.insert(\"a\")\n total(s) }",
    ] {
        assert!(
            has_type_error(&format!("{TOTAL}{call}")),
            "a differently-itemed receiver must be reported: {call}"
        );
    }
    let diags = analyze_and_lower_diags(&format!("{TOTAL}fn main() -> Int {{ total(1) }}"));
    assert!(
        diags.iter().any(|d| code_of(d) == "Y005"),
        "an Int is not iterable at any element type: {diags:?}"
    );
    for call in [
        "fn main() -> Int { var v = Vec()\n v.push(1)\n total(v) }",
        "fn main() -> Int { var s = Set()\n s.insert(1)\n total(s) }",
    ] {
        assert!(
            !has_type_error(&format!("{TOTAL}{call}")),
            "an Int-itemed receiver is accepted: {call}"
        );
    }
}

#[test]
fn a_self_referring_type_declaration_is_reported_rather_than_registered_as_a_variable() {
    let n006 = |src: &str| -> usize {
        analyze(src)
            .diagnostics
            .iter()
            .filter(|d| d.code == DiagCode::RecursiveTypeDeclaration)
            .count()
    };
    assert_eq!(n006("struct Node { next: Node, value: Int }"), 1);
    assert_eq!(n006("enum List { Nil, Cons(Int, List) }"), 1);
    assert_eq!(n006("struct Node { children: Vec[Node], value: Int }"), 1);
    assert_eq!(n006("struct Node { by_name: Map[Text, Node] }"), 1);
    assert_eq!(n006("struct A { b: B }\nstruct B { a: A }"), 2);
    assert_eq!(
        n006("struct A { b: B }\nstruct B { c: C }\nstruct C { a: A }"),
        3
    );
    let diags = analyze("struct A { b: B }\nstruct B { a: A }").diagnostics;
    let a = diags
        .iter()
        .find(|d| d.message.starts_with("`A`"))
        .expect("A is reported");
    assert!(
        a.message.contains("through `B`"),
        "the cycle names its other member: {}",
        a.message
    );
    let src = "struct C { a: A }\n\
               struct A { b: B }\n\
               struct B { a: A }\n\
               fn main() -> Unit { var c = C { a: \"not an A\" }\n out(c.a) }";
    assert_eq!(n006(src), 2, "only A and B are recursive");
    let diags = analyze(src);
    assert!(
        diags
            .diagnostics
            .iter()
            .any(|d| d.code == DiagCode::TypeMismatch),
        "C's field is a real `A`, so a Text in it is a mismatch: {:?}",
        diags.diagnostics
    );
    assert_eq!(n006("struct Node { node: Int }"), 0);
    assert_eq!(n006("enum E { E }"), 0);
    assert_eq!(
        n006("struct Outer { inner: Inner }\nstruct Inner { n: Int }"),
        0
    );
    assert!(!has_type_error(
        "struct Outer { inner: Inner }\n\
         struct Inner { n: Int }\n\
         fn f(o: Outer) -> Int { o.inner.n }"
    ));
    assert_eq!(
        n006("enum Shape { Round(Circle) }\nstruct Circle { r: Int }"),
        0
    );
    let diags = analyze(
        "struct Node { next: Node, value: Int }\n\
         fn main() -> Int { var n = Node { next: 7, value: 1 }\n n.value }",
    )
    .diagnostics;
    assert_eq!(
        diags.len(),
        1,
        "one report for the declaration and nothing else: {diags:?}"
    );
}

#[test]
fn the_logical_operators_take_two_bools_and_produce_one() {
    for op in ["&&", "||"] {
        assert_eq!(
            expr_type(&format!("true {op} false")),
            "Bool",
            "{op} is Bool"
        );
        assert!(!has_type_error(&format!(
            "fn f(a: Bool, b: Bool) -> Bool {{ a {op} b }}"
        )));
        assert!(!has_type_error(&format!(
            "fn f(x: Int, y: Int) -> Bool {{ x == 1 {op} y != 0 }}"
        )));
        assert!(has_type_error(&format!("fn f() -> Bool {{ 1 {op} true }}")));
        assert!(has_type_error(&format!("fn f() -> Bool {{ true {op} 1 }}")));
        assert!(has_type_error(&format!(
            "fn f(v: Vec[Int]) -> Bool {{ v {op} true }}"
        )));
        assert!(has_type_error(&format!(
            "fn f() -> Int {{ true {op} false }}"
        )));
        assert!(
            !has_type_error(&format!("fn f() -> Bool {{ false {op} panic(\"x\") }}")),
            "a `Never` right operand is absorbed by {op}"
        );
        assert!(!has_type_error(&format!(
            "fn f() -> Bool {{ panic(\"x\") {op} false }}"
        )));
    }
}

#[test]
fn a_tuple_element_is_read_by_position_and_a_bad_index_is_reported() {
    let y019 = |src: &str| -> bool {
        analyze(src)
            .diagnostics
            .iter()
            .any(|d| d.code == DiagCode::NoTupleElement)
    };
    assert_eq!(expr_type("(1, 2).0"), "Int");
    assert_eq!(expr_type("(1, \"a\").1"), "Text");
    assert_eq!(expr_type("(1, \"a\", true).2"), "Bool");
    assert_eq!(expr_type("(1, 2, 3, 4, 5).4"), "Int");
    assert_eq!(expr_type("((1, \"a\"), 3).0.1"), "Text");
    assert!(!has_type_error(
        "fn fst(p: (Int, Text)) -> Int { p.0 }\n\
         fn main() -> Int { var q = (1, \"a\")\n fst(q) }"
    ));
    assert!(!has_type_error(
        "fn main() -> Int { var f = |p: (Int, Int)| p.0 + p.1\n f((1, 2)) }"
    ));
    assert!(has_type_error("fn f() -> Text { (1, 2).0 }"));
    assert!(y019("fn f() -> Int { (1, 2).2 }"));
    assert!(y019("fn f() -> Int { (1, 2).5 }"));
    assert!(y019("fn f() -> Int { (1, 2).99999999999999999999 }"));
    assert!(y019("fn f() -> Int { var n = 1\n n.0 }"));
    assert!(y019("fn f() -> Int { var t = \"ab\"\n t.0 }"));
    assert!(y019("fn f(v: Vec[Int]) -> Int { v.0 }"));
    assert!(y019("struct P { x: Int }\nfn f(p: P) -> Int { p.0 }"));
    assert!(!has_type_error(
        "struct P { x: Int }\nfn f(p: P) -> Int { p.x }"
    ));
    assert!(!y019("struct P { x: Int }\nfn f(p: P) -> Int { p.x }"));
    assert!(!y019("fn first(p) { p.0 }"));
}

#[test]
fn a_subscript_reads_the_type_the_receiver_holds_at_that_key() {
    let y020 = |src: &str| -> bool {
        analyze(src)
            .diagnostics
            .iter()
            .any(|d| d.code == DiagCode::NotIndexable)
    };
    assert_eq!(
        scheme_of(
            "fn f(v: Vec[Text]) -> Text { v[0] }\nvar _p = f(Vec())",
            "_p"
        ),
        Some("Text".to_string())
    );
    assert_eq!(
        scheme_of(
            "fn f(d: Deque[Text]) -> Text { d[0] }\nvar _p = f(Deque())",
            "_p"
        ),
        Some("Text".to_string())
    );
    assert_eq!(
        scheme_of(
            "fn f(m: Map[Text, Float]) -> Float { m[\"a\"] }\nvar _p = f(Map())",
            "_p"
        ),
        Some("Float".to_string())
    );
    assert_eq!(
        scheme_of(
            "fn f(c: Counter[Text]) -> Int { c[\"a\"] }\nvar _p = f(Counter())",
            "_p"
        ),
        Some("Int".to_string())
    );
    assert_eq!(
        scheme_of(
            "fn f(g: Grid[Text]) -> Text { g[0, 0] }\nvar _p = f(Grid())",
            "_p"
        ),
        Some("Text".to_string())
    );
    assert_eq!(
        scheme_of("fn f(t: Text) -> Int { t[0] }\nvar _p = f(\"ab\")", "_p"),
        Some("Int".to_string())
    );
    assert!(has_type_error("fn f(m: Map[Text, Int]) -> Int { m[0] }"));
    assert!(!has_type_error(
        "fn f(m: Map[Text, Int]) -> Int { m[\"a\"] }"
    ));
    assert!(y020("fn f(s: Set[Int]) -> Int { s[0] }"));
    assert!(y020("fn f(b: BitSet) -> Int { b[0] }"));
    assert!(y020("fn f(h: MinHeap[Int]) -> Int { h[0] }"));
    assert!(y020("fn f(n: Int) -> Int { n[0] }"));
    assert!(y020("struct P { x: Int }\nfn f(p: P) -> Int { p[0] }"));
    assert!(y020("fn f(g: Grid[Int]) -> Int { g[0] }"));
    assert!(y020("fn f(v: Vec[Int]) -> Int { v[0, 1] }"));
    assert!(has_type_error(
        "fn f(m: Map[Text, Int]) -> Int { m.get(\"a\") }"
    ));
    assert!(!has_type_error(
        "fn f(m: Map[Text, Int]) -> Option[Int] { m.get(\"a\") }"
    ));
}

#[test]
fn a_subscript_on_an_unannotated_parameter_is_answered_by_the_call_site() {
    assert!(!has_type_error(
        "fn first(m, k) { m[k] }\nfn main() -> Int { var m = Map()\n m.insert(\"a\", 1)\n first(m, \"a\") }"
    ));
    assert!(has_type_error(
        "fn first(m, k) { m[k] }\nfn main() -> Int { var m = Map()\n m.insert(\"a\", \"x\")\n first(m, \"a\") }"
    ));
    assert!(has_type_error(
        "fn first(m, k) { m[k] }\nfn main() -> Int { var s = Set()\n s.insert(1)\n first(s, 1) }"
    ));
    assert!(has_type_error(
        "fn first(c, k) { c[k] }\n\
         fn main() -> Int { var m = Map()\n m.insert(\"a\", 1)\n \
         var v = Vec()\n v.push(2)\n first(m, \"a\") + first(v, 0) }"
    ));
    assert!(has_type_error(
        "fn size(c) { c.len() }\n\
         fn main() -> Int { var m = Map()\n m.insert(\"a\", 1)\n \
         var v = Vec()\n v.push(2)\n size(m) + size(v) }"
    ));
    assert!(!has_type_error(
        "fn first(c, k) { c[k] }\n\
         fn main() -> Int { var a = Vec()\n a.push(1)\n \
         var b = Vec()\n b.push(2)\n first(a, 0) + first(b, 0) }"
    ));
}

#[test]
fn a_store_through_a_subscript_needs_a_receiver_that_has_one() {
    let y020 = |src: &str| -> bool {
        analyze(src)
            .diagnostics
            .iter()
            .any(|d| d.code == DiagCode::NotIndexable)
    };
    let y021 = |src: &str| -> bool {
        analyze(src)
            .diagnostics
            .iter()
            .any(|d| d.code == DiagCode::NotAnAssignmentTarget)
    };
    assert!(!has_type_error("fn f(m: Map[Text, Int]) { m[\"a\"] = 1 }"));
    assert!(!has_type_error(
        "fn f(m: Map[Text, Int]) { m[\"a\"] = 1\n m[\"a\"] += 2 }"
    ));
    assert!(!has_type_error("fn f(c: Counter[Text]) { c[\"a\"] += 1 }"));
    assert!(!has_type_error("fn f(g: Grid[Int]) { g[0, 1] = 7 }"));
    assert!(!has_type_error(
        "fn f(v: Vec[Int]) { v[0] = 1\n v[0] += 2 }"
    ));
    assert!(!has_type_error(
        "fn f(d: Deque[Int]) { d[0] = 1\n d[0] += 2 }"
    ));
    assert!(has_type_error(
        "fn f(m: Map[Text, Int]) { m[\"a\"] = \"x\" }"
    ));
    assert!(has_type_error("fn f(m: Map[Text, Int]) { m[0] = 1 }"));
    assert!(has_type_error("fn f(g: Grid[Int]) { g[0, 1] = \"x\" }"));
    assert!(has_type_error("fn f(v: Vec[Int]) { v[0] = \"x\" }"));
    assert!(has_type_error("fn f(v: Vec[Int]) { v[\"a\"] = 1 }"));
    assert!(has_type_error("fn f(d: Deque[Int]) { d[0] = \"x\" }"));
    assert!(y020("fn f(t: Text) { t[0] = 1 }"));
    assert!(!y020("fn f(t: Text) -> Char { t[0] }"));
    assert!(y020("fn f(s: Set[Int]) { s[0] = 1 }"));
    assert!(y021("fn g() -> Int { 1 }\nfn f() { g() = 3 }"));
    assert!(y021("fn f(v: Vec[Int]) { v.len() += 1 }"));
    assert!(has_name_error("fn f() { nope() = 3 }"));
    assert!(!has_type_error("fn f() { var x = 1\n x = 2\n x += 3 }"));
    assert!(!y021("fn f() { var x = 1\n x = 2 }"));
    assert!(has_type_error(
        "fn f(m: Map[Text, Bool]) { m[\"a\"] = true\n m[\"a\"] += true }"
    ));
}

#[test]
fn a_store_through_a_field_writes_the_slot_the_read_would_have_read() {
    let struct_p = "struct P { x: Int, y: Text }\n";
    let y021 = |src: &str| -> bool {
        analyze(src)
            .diagnostics
            .iter()
            .any(|d| d.code == DiagCode::NotAnAssignmentTarget)
    };
    let no_field = |src: &str| -> bool {
        analyze(src)
            .diagnostics
            .iter()
            .any(|d| d.code == DiagCode::NoFieldOnType)
    };
    assert!(!has_type_error(&format!(
        "{struct_p}fn f(p: P) {{ p.x = 5 }}"
    )));
    assert!(!has_type_error(&format!(
        "{struct_p}fn f(p: P) {{ p.x += 1\n p.x -= 2\n p.x *= 3\n p.x /= 4\n p.x %= 5 }}"
    )));
    assert!(!has_type_error(&format!(
        "{struct_p}fn f(p: P) {{ p.y += \"z\" }}"
    )));
    assert!(has_type_error(&format!(
        "{struct_p}fn f(p: P) {{ p.y *= \"z\" }}"
    )));
    assert!(!y021(&format!("{struct_p}fn f(p: P) {{ p.x = 5 }}")));
    assert!(!y021(&format!("{struct_p}fn f(p: P) {{ p.x += 1 }}")));
    assert!(has_type_error(&format!(
        "{struct_p}fn f(p: P) {{ p.x = \"five\" }}"
    )));
    assert!(has_type_error(&format!(
        "{struct_p}fn f(p: P) {{ p.y = 5 }}"
    )));
    assert!(no_field(&format!("{struct_p}fn f(p: P) {{ p.z = 5 }}")));
    assert!(!y021(&format!("{struct_p}fn f(p: P) {{ p.z = 5 }}")));
    assert!(!has_type_error(&format!(
        "{struct_p}fn bump(q) {{ q.x += 1 }}\nfn f(p: P) {{ bump(p) }}"
    )));
    assert!(has_type_error(
        "struct P { x: Int }\nstruct Q { y: Int }\n\
         fn bump(q) { q.x += 1 }\nfn f(q: Q) { bump(q) }"
    ));
    assert!(!has_type_error(&format!(
        "{struct_p}fn f() {{ var p = P {{ x: 1, y: \"a\" }}\n p.x = 2 }}"
    )));
    assert!(has_type_error(&format!(
        "{struct_p}fn f(p: P) {{ p.x min= 3 }}"
    )));
    assert!(has_type_error(&format!(
        "{struct_p}fn f(p: P) {{ p.x max= 3 }}"
    )));
    assert!(y021("fn f(p: (Int, Int)) { p.0 = 1 }"));
}

#[test]
fn a_constructors_written_type_arguments_say_what_it_constructs() {
    assert_eq!(
        scheme_of("var c = Counter[(Int, Int)]()", "c"),
        Some("Counter[(Int, Int)]".to_string())
    );
    assert_eq!(
        scheme_of("var v = Vec[Text]()", "v"),
        Some("Vec[Text]".to_string())
    );
    assert_eq!(
        scheme_of("var m = Map[Text, Vec[Int]]()", "m"),
        Some("Map[Text, Vec[Int]]".to_string())
    );
    assert_eq!(
        scheme_of("var v = Vec[Int]()", "v"),
        Some("Vec[Int]".to_string())
    );
    assert!(!has_type_error(
        "fn main() -> Int { var c = Counter[Text]()\n c.inc(\"a\")\n c.len() }"
    ));
    assert!(has_type_error(
        "fn main() -> Int { var c = Counter[Text]()\n c.inc(1)\n c.len() }"
    ));
    assert!(has_type_error(
        "fn main() -> Int { var m = Map[Text, Int]()\n m.insert(\"a\", \"b\")\n m.len() }"
    ));
    assert!(!has_type_error(
        "fn main() -> Int { var c = Counter[(Int, Int)]()\n c[(1, 2)] += 1\n c[(1, 2)] }"
    ));
    assert!(has_type_error(
        "fn main() -> Int { var c = Counter[(Int, Int)]()\n c[\"a\"] += 1\n c.len() }"
    ));
    let y007 = |src: &str| -> bool {
        analyze(src)
            .diagnostics
            .iter()
            .any(|d| d.code == DiagCode::WrongTypeArgumentCount)
    };
    assert!(y007("var v = Vec[Int, Text]()"));
    assert!(y007("var m = Map[Text]()"));
    assert!(!y007("var m = Map[Text, Int]()"));
    assert!(has_name_error("var v = Vec[Nope]()"));
    assert!(has_name_error(
        "fn f() -> Int { var n = 1\n var v = Vec[n]()\n 0 }"
    ));
    assert!(!has_type_error("var c: Counter[Text] = Counter[Text]()"));
    assert!(has_type_error("var c: Counter[Int] = Counter[Text]()"));
}

#[test]
fn a_files_top_level_statements_become_one_generated_item() {
    let lowered = |text: &str| analyze_and_lower(text).1;
    let entry_of = |module: &TypedModule| -> Option<usize> {
        module.items.iter().find_map(|item| match item {
            TypedItem::Fn(f) if f.name == ENTRY_NAME => Some(f.body.stmts.len()),
            _ => None,
        })
    };
    let module = lowered("out(1)\nfn f() -> Int { 2 }\nvar x = f()\nout(x)\n");
    assert_eq!(entry_of(&module), Some(3), "the three top-level statements");
    assert!(
        module
            .items
            .iter()
            .any(|item| matches!(item, TypedItem::Fn(f) if f.name == "f")),
        "`f` is still its own item"
    );
    let module = lowered("struct P { x: Int }\nenum E { A }\nfn main() { out(1) }\n");
    assert_eq!(entry_of(&module), None);
    let module = lowered("out(1)\n");
    let entry = entry_fn(&module);
    assert!(entry.params.is_empty());
    assert_eq!(entry.body.stmts.len(), 1);
    assert!(matches!(
        entry.body.tail,
        TypedExpr::Lit {
            value: Lit::Unit,
            ..
        }
    ));
    assert!(
        matches!(entry.body.tail, TypedExpr::Lit { span, .. } if span == (0, 0)),
        "the synthesized tail names no source text"
    );
    assert_ne!(entry.span, (0, 0), "the entry item keeps the file's extent");
    assert!(
        !ENTRY_NAME
            .chars()
            .all(|c| c.is_alphanumeric() || c == '_'),
        "`{}` must not be spellable",
        ENTRY_NAME
    );
    assert_eq!(
        entry_point(|n| n == ENTRY_NAME || n == "main"),
        Some(ENTRY_NAME)
    );
    assert_eq!(entry_point(|n| n == "main"), Some("main"));
    assert_eq!(entry_point(|_| false), None);
}

#[test]
fn a_synthesized_block_tail_carries_no_span() {
    let src = "fn f() -> Unit {\n  var x = 1\n}\n";
    let (_, module) = analyze_and_lower(src);
    let f = fn_named(&module, "f");
    assert!(
        matches!(
            f.body.tail,
            TypedExpr::Lit {
                value: Lit::Unit,
                span: (0, 0),
                ..
            }
        ),
        "a statement-terminated body gets a spanless Unit tail"
    );
    let src = "fn g() -> Int {\n  var x = 1\n  x\n}\n";
    let (_, module) = analyze_and_lower(src);
    let g = fn_named(&module, "g");
    let span = match &g.body.tail {
        TypedExpr::Path { span, .. } => *span,
        other => panic!("expected the written tail `x`, got {other:?}"),
    };
    assert_eq!(&src[span.0 as usize..span.1 as usize], "x");
}

#[test]
fn a_fn_that_reads_a_binding_around_it_is_reported() {
    let reports_n007 = |src: &str| {
        analyze_and_lower_diags(src)
            .iter()
            .any(|d| d.code == DiagCode::FunctionReadsOuterBinding)
    };
    assert!(reports_n007("var x = 1\nfn f() -> Int { x }\nout(f())\n"));
    assert!(reports_n007(
        "var x = 5\nfn g() { |n| n + x }\nout(g()(1))\n"
    ));
    assert!(reports_n007("var x = 1\nfn f() -> Int { x }\n"));
    assert!(reports_n007("var x = 1\nfn f() { x = 2 }\n"));
    assert!(reports_n007(
        "var x = 1\nfn f() -> Int { if true { x } else { 0 } }\n"
    ));
    assert!(!reports_n007(
        "var offset = 10\nvar v = Vec()\nv.push(1)\nout(v.map(|x| x + offset).sum())\n"
    ));
    assert!(!reports_n007(
        "fn f(v) { var k = 10\n v.map(|x| x + k).sum() }\n"
    ));
    assert!(!reports_n007(
        "fn helper() -> Int { 1 }\nfn f() -> Int { helper() }\n"
    ));
    assert!(!reports_n007(
        "struct P { x: Int }\nfn f() -> Int { P { x: 1 }.x }\n"
    ));
    assert!(!reports_n007(
        "enum E { A, B }\nfn f() -> Int { match A { A => 1, B => 2 } }\n"
    ));
    assert!(!reports_n007("fn f(n: Int) -> Int { abs(n) }\n"));
    assert!(!reports_n007(
        "fn f(n: Int) -> Int { var m = n + 1\n if n < 1 { m } else { f(n - 1) } }\n"
    ));
    let diags = analyze_and_lower_diags("var x = 1\nfn f() -> Int { x + x }\n");
    assert_eq!(
        diags
            .iter()
            .filter(|d| d.code == DiagCode::FunctionReadsOuterBinding)
            .count(),
        2,
        "one per use, and {diags:?} has nothing else"
    );
    assert_eq!(diags.len(), 2, "no cascade: {diags:?}");
    let forward = analyze_and_lower_diags("fn f() -> Int { x }\nvar x = 1\n");
    assert!(forward
        .iter()
        .any(|d| d.code == DiagCode::UnknownName));
    assert!(!forward
        .iter()
        .any(|d| d.code == DiagCode::FunctionReadsOuterBinding));
}

#[test]
fn a_recursive_fn_is_not_told_to_use_a_closure() {
    let n007 = |src: &str| -> Vec<Diagnostic> {
        analyze_and_lower_diags(src)
            .into_iter()
            .filter(|d| d.code == DiagCode::FunctionReadsOuterBinding)
            .collect()
    };
    let only = |src: &str| -> Diagnostic {
        let mut ds = n007(src);
        assert_eq!(ds.len(), 1, "one report per use site: {ds:?}");
        ds.remove(0)
    };
    let advice = |d: &Diagnostic| -> Vec<String> {
        d.suggestions
            .iter()
            .filter(|s| s.replacement.is_none())
            .map(|s| s.message.clone())
            .collect()
    };
    let d = only(
        "var memo = 1\nfn fact(n: Int) -> Int { if n <= 1 { memo } else { n * fact(n - 1) } }\n",
    );
    assert_eq!(
        d.message,
        "`fact` cannot use `memo`: a function does not capture the bindings around it \
         (pass `memo` as a parameter)"
    );
    assert_eq!(
        advice(&d),
        vec![
            "`fact` calls itself, so a closure is not the way out: a closure cannot name itself \
             (`N001`)"
        ]
    );
    let d = only(
        "var k = 2\nfn ping(n: Int) -> Int { if n <= 0 { k } else { pong(n - 1) } }\n\
         fn pong(n: Int) -> Int { ping(n - 1) }\n",
    );
    assert_eq!(
        advice(&d),
        vec![
            "`ping` calls itself through `pong`, so a closure is not the way out: a closure \
             cannot name itself (`N001`)"
        ]
    );
    let d = only("var limit = 10\nfn over_limit(n: Int) -> Bool { n > limit }\n");
    assert_eq!(
        d.message,
        "`over_limit` cannot use `limit`: a function does not capture the bindings around it \
         (pass `limit` as a parameter, or use a closure)"
    );
    assert!(d.suggestions.is_empty(), "no advice to add: {d:?}");
    let d = only(
        "var limit = 10\nfn fact(n: Int) -> Int { if n <= 1 { 1 } else { n * fact(n - 1) } }\n\
         fn caller(n: Int) -> Int { fact(n) + limit }\n",
    );
    assert!(d.message.contains("or use a closure"));
    assert!(d.suggestions.is_empty());
    let d = only(
        "var k = 1\nfn f(n: Int) -> Int { if n <= 0 { [1].map(|x| x + k).sum() } \
         else { f(n - 1) } }\n",
    );
    assert!(!d.message.contains("or use a closure"));
    assert_eq!(advice(&d).len(), 1);
    let diags = analyze_and_lower_diags("var x = 1\nfn f() -> Int { x + x }\n");
    assert_eq!(diags.len(), 2, "no cascade: {diags:?}");
    assert!(
        diags[0].primary.span.start < diags[1].primary.span.start,
        "in source order: {diags:?}"
    );
}

#[test]
fn a_record_pattern_binds_a_field_at_the_fields_own_type() {
    const DECL: &str = "struct P { x: Int, tag: Text }\nvar p = P { x: 1, tag: \"a\" }\n";
    let src = format!("{DECL}var r = match p {{ P {{ x, tag }} => x }}\n");
    assert_eq!(scheme_of(&src, "x").as_deref(), Some("Int"));
    assert_eq!(scheme_of(&src, "tag").as_deref(), Some("Text"));
    let src = format!("{DECL}var r = match p {{ P {{ tag: s, x: n }} => n }}\n");
    assert_eq!(scheme_of(&src, "n").as_deref(), Some("Int"));
    assert_eq!(
        scheme_of(&src, "s").as_deref(),
        Some("Text"),
        "the field's type, not the position's — the fields are written swapped"
    );
    assert!(is_clean_with_lower(&format!(
        "{DECL}var r = match p {{ P {{ x }} => x }}\n"
    )));
    let diags = analyze_and_lower_diags(&format!("{DECL}var r = match p {{ P {{ z }} => 1 }}\n"));
    assert!(
        diags.iter().any(|d| code_of(d) == "Y114"),
        "expected Y114, got {diags:?}"
    );
    let diags = analyze_and_lower_diags(&format!(
        "{DECL}var r = match p {{ P {{ x, x: q }} => 1 }}\n"
    ));
    assert!(
        diags.iter().any(|d| code_of(d) == "Y115"),
        "expected Y115, got {diags:?}"
    );
    let diags = analyze_and_lower_diags(
        "struct P { x: Int }\nstruct Q { y: Int }\n\
         var p = P { x: 1 }\nvar r = match p { Q { y } => y }\n",
    );
    assert!(
        diags.iter().any(|d| code_of(d) == "Y001"),
        "a pattern for another record is a mismatch: {diags:?}"
    );
    let diags = analyze_and_lower_diags("var n = 1\nvar r = match n { Nope { y } => y }\n");
    assert!(
        diags.iter().any(|d| code_of(d) == "N001"),
        "an undefined head is an undefined name: {diags:?}"
    );
    let diags = analyze_and_lower_diags("var n = 1\nvar r = match n { Int { y } => y }\n");
    assert!(
        diags.iter().any(|d| code_of(d) == "Y123"),
        "a head that is not a record has no fields to match: {diags:?}"
    );
}

#[test]
fn a_tuple_pattern_binds_by_position() {
    let src = "var t = (1, \"a\")\nvar r = match t { (n, s) => n }\n";
    assert_eq!(scheme_of(src, "n").as_deref(), Some("Int"));
    assert_eq!(scheme_of(src, "s").as_deref(), Some("Text"));
    let src = "struct P { x: Int, tag: Text }\n\
               var t = (P { x: 1, tag: \"a\" }, 2)\n\
               var r = match t { (P { x, tag }, k) => x + k }\n";
    assert_eq!(scheme_of(src, "x").as_deref(), Some("Int"));
    assert_eq!(scheme_of(src, "tag").as_deref(), Some("Text"));
    assert_eq!(scheme_of(src, "k").as_deref(), Some("Int"));
    let scheme = scheme_of("fn first(t) { match t { (a, b) => a } }\n", "first")
        .expect("first has a scheme");
    assert_eq!(scheme, "forall T U. ((T, U)) -> T");
    for src in [
        "var n = 1\nvar r = match n { (a, b) => a }\n",
        "var t = (1, 2)\nvar r = match t { (a, b, c) => a }\n",
    ] {
        let diags = analyze_and_lower_diags(src);
        assert!(
            diags.iter().any(|d| code_of(d) == "Y001"),
            "{src} must report a mismatch, got {diags:?}"
        );
    }
    let diags = analyze_and_lower_diags("var n = 1\nvar r = match n { (a) => a }\n");
    assert!(
        diags.iter().any(|d| code_of(d) == "Y123"),
        "expected Y123, got {diags:?}"
    );
}

#[test]
fn a_record_or_tuple_match_is_exhaustive_without_a_catch_all() {
    const DECL: &str = "struct P { x: Int, y: Int }\nvar p = P { x: 1, y: 2 }\nvar t = (1, 2)\n";
    for arm in [
        "match p { P { x, y } => x + y }",
        "match p { P { x } => x }",
        "match p { P { x: a, y: b } => a }",
        "match t { (a, b) => a + b }",
        "match t { (a, _) => a }",
    ] {
        assert!(
            is_clean_with_lower(&format!("{DECL}var r = {arm}\n")),
            "{arm} must be exhaustive on its own"
        );
    }
    let diags = analyze_and_lower_diags(&format!(
        "{DECL}var r = match p {{ P {{ x, y }} => x, _ => 0 }}\n"
    ));
    assert!(
        diags.iter().any(|d| code_of(d) == "Y121"),
        "expected Y121, got {diags:?}"
    );
    for (src, missing) in [
        (
            format!("{DECL}var r = match p {{ P {{ x: 1, y }} => y }}\n"),
            "P { x: _, y: _ }",
        ),
        (
            format!("{DECL}var r = match t {{ (1, b) => b }}\n"),
            "(_, _)",
        ),
    ] {
        let diags = analyze_and_lower_diags(&src);
        let y120 = diags
            .iter()
            .find(|d| code_of(d) == "Y120")
            .unwrap_or_else(|| panic!("expected Y120, got {diags:?}"));
        assert!(
            y120.message.contains(missing),
            "the witness must name `{missing}`: {}",
            y120.message
        );
    }
    assert!(is_clean_with_lower(
        "struct P { x: Int, y: Int }\n\
         var o = Some(P { x: 1, y: 2 })\n\
         var r = match o { Some(P { x, y }) => x, None => 0 }\n"
    ));
}

#[test]
fn an_updating_store_is_a_row_on_a_map_of_ints() {
    assert!(is_clean_with_lower(
        "var d = Map()\nd[\"a\"] min= 5\nd[\"a\"] min= 3\nout(d[\"a\"])\n"
    ));
    assert_eq!(
        expr_type("{ var d = Map()\n d[\"a\"] min= 5\n d }"),
        "Map[Text, Int]",
        "the row's bound pins the value type"
    );
    let diags = analyze_and_lower_diags("var d = Map()\nd[\"a\"] = \"v\"\nd[\"a\"] min= \"w\"\n");
    assert!(
        diags.iter().any(|d| code_of(d) == "Y001"),
        "expected Y001, got {diags:?}"
    );
    for (src, op) in [
        ("var c = Counter()\nc[\"k\"] min= 1\n", "min="),
        ("var g = Grid()\ng[0, 0] max= 1\n", "max="),
        ("var v = Vec()\nv.push(1)\nv[0] min= 1\n", "min="),
    ] {
        let diags = analyze_and_lower_diags(src);
        let y020 = diags
            .iter()
            .find(|d| code_of(d) == "Y020")
            .unwrap_or_else(|| panic!("expected Y020 for {src}, got {diags:?}"));
        assert!(
            y020.message.contains(op),
            "the message must name `{op}`: {}",
            y020.message
        );
    }
    let diags = analyze_and_lower_diags("var x = 1\nx min= 2\n");
    assert!(
        diags.iter().any(|d| code_of(d) == "Y021"),
        "expected Y021, got {diags:?}"
    );
    assert!(is_clean_with_lower(
        "fn relax(d, k, v) { d[k] min= v }\n\
         var dist = Map()\ndist[\"a\"] = 10\nrelax(dist, \"a\", 4)\nout(dist[\"a\"])\n"
    ));
    let diags = analyze_and_lower_diags(
        "fn relax(d, k, v) { d[k] min= v }\nvar c = Counter()\nrelax(c, \"a\", 4)\n",
    );
    assert!(
        diags.iter().any(|d| code_of(d) == "Y020"),
        "the requirement is answered at the call: {diags:?}"
    );
    assert_eq!(expr_type("min(3, 4) + max(3, 4)"), "Int");
}

#[test]
fn a_for_binding_is_a_pattern_and_must_match_every_item() {
    let src = "var m = Map()\nm[\"a\"] = 1\nfor (k, v) in m { out(k) out(v) }\n";
    assert_eq!(scheme_of(src, "k").as_deref(), Some("Text"));
    assert_eq!(scheme_of(src, "v").as_deref(), Some("Int"));
    let src = "struct P { x: Int, tag: Text }\nvar ps = Vec()\nps.push(P { x: 1, tag: \"a\" })\n\
               for P { x, tag } in ps { out(x) out(tag) }\n";
    assert_eq!(scheme_of(src, "x").as_deref(), Some("Int"));
    assert_eq!(scheme_of(src, "tag").as_deref(), Some("Text"));
    let src = "var v = Vec()\nv.push((1, 2))\nfor kv in v { out(kv.0) }\n";
    assert_eq!(scheme_of(src, "kv").as_deref(), Some("(Int, Int)"));
    let diags = analyze_and_lower_diags("var v = Vec()\nv.push(1)\nfor (a, b) in v { out(a) }\n");
    assert!(
        diags.iter().any(|d| code_of(d) == "Y001"),
        "expected Y001, got {diags:?}"
    );
    for src in [
        "var v = Vec()\nv.push(Some(1))\nfor Some(n) in v { out(n) }\n",
        "var v = Vec()\nv.push((1, 2))\nfor (1, b) in v { out(b) }\n",
        "var v = Vec()\nv.push((1, (2, 3)))\nfor (a, (2, c)) in v { out(c) }\n",
    ] {
        let diags = analyze_and_lower_diags(src);
        assert!(
            diags.iter().any(|d| code_of(d) == "Y125"),
            "{src} must be Y125, got {diags:?}"
        );
    }
    for src in [
        "var v = Vec()\nv.push(1)\nfor _ in v { out(0) }\n",
        "var v = Vec()\nv.push((1, 2))\nfor (a, _) in v { out(a) }\n",
        "struct P { x: Int, y: Int }\nvar ps = Vec()\nps.push(P { x: 1, y: 2 })\n\
         for P { x } in ps { out(x) }\n",
    ] {
        assert!(is_clean_with_lower(src), "{src} must be accepted");
    }
}

#[test]
fn a_record_literals_head_must_name_a_struct() {
    let analysis = analyze("var x = 1\nvar p = x { a: 1 }\nout(p)\n");
    assert!(
        analysis
            .diagnostics
            .iter()
            .any(|d| code_of(d) == "N008"),
        "expected N008 from analysis alone, got {:?}",
        analysis.diagnostics
    );
    for (src, kind) in [
        ("var x = 1\nvar p = x { a: 1 }\n", "a binding"),
        (
            "fn g(v: Vec[Int]) { for x in v { x { a: 1 } } }\n",
            "a binding",
        ),
        ("fn f() { 1 }\nvar p = f { a: 1 }\n", "a function"),
        ("enum E { A }\nvar p = E { a: 1 }\n", "an enum type"),
        ("enum E { A }\nvar p = A { a: 1 }\n", "an enum variant"),
        ("var p = out { a: 1 }\n", "a built-in name"),
        ("fn g(q) { q { a: 1 } }\n", "a parameter"),
    ] {
        let diags = analyze(src).diagnostics;
        let n008 = diags
            .iter()
            .find(|d| code_of(d) == "N008")
            .unwrap_or_else(|| panic!("expected N008 for {src}, got {diags:?}"));
        assert!(
            n008.message.contains(kind),
            "the message must name `{kind}`: {}",
            n008.message
        );
    }
    assert_ne!(
        scheme_of("var x = 1\nvar p = x { a: 1 }\n", "p").as_deref(),
        Some("Int"),
        "the literal must not keep the head's type"
    );
    let diags = analyze("var x = 1\nvar p = x { a: nope }\n").diagnostics;
    assert!(
        diags.iter().any(|d| code_of(d) == "N001"),
        "an initializer's own mistake survives: {diags:?}"
    );
    for src in [
        "struct P { x: Int, y: Int }\nvar p = P { x: 1, y: 2 }\nout(p.x)\n",
        "struct P { x: Int }\nvar q = 5\nvar p = P { x: q }\nout(p.x)\n",
    ] {
        assert!(is_clean_with_lower(src), "{src} must be accepted");
    }
    let diags = analyze("var p = Nope { a: 1 }\n").diagnostics;
    assert!(
        diags.iter().any(|d| code_of(d) == "N001")
            && !diags.iter().any(|d| code_of(d) == "N008"),
        "an undefined head is N001 alone: {diags:?}"
    );
}

#[test]
fn a_field_read_requires_the_field_of_whatever_the_receiver_turns_out_to_be() {
    fn check_diags(text: &str) -> Vec<Diagnostic> {
        analyze(text).diagnostics
    }
    fn has(diags: &[Diagnostic], code: &str) -> bool {
        diags.iter().any(|d| code_of(d) == code)
    }
    assert!(is_clean_with_lower(
        "struct P { x: Int, y: Int }\n\
         fn dist(a) -> Int { a.x + a.y }\n\
         out(dist(P { x: 1, y: 2 }))\n"
    ));
    assert!(is_clean_with_lower(
        "fn manhattan(a, b) {\n    abs(a.x - b.x) + abs(a.y - b.y)\n}\n"
    ));
    assert!(
        has(&check_diags("var n = 1\nout(n.x)\n"), "Y112"),
        "a field of an `Int` is `check`'s to report"
    );
    assert!(
        has(
            &check_diags("struct P { x: Int }\nvar p = P { x: 1 }\nout(p.z)\n"),
            "Y112"
        ),
        "a missing field of a known record is `check`'s to report"
    );
    assert!(
        has(
            &check_diags(
                "struct P { x: Int, y: Int }\n\
                 fn dist(a) -> Int { a.x + a.y }\nout(dist(3))\n"
            ),
            "Y112"
        ),
        "a call that pins the receiver to `Int` is `check`'s to report"
    );
    assert!(
        has(
            &check_diags(
                "struct P { x: Int, y: Int }\nfn getz(a) { a.z }\nout(getz(P { x: 1, y: 2 }))\n"
            ),
            "Y112"
        ),
        "a call that pins the receiver to a record lacking the field is `check`'s"
    );
    assert!(
        has(
            &check_diags("var v = Vec[Int]()\nv.push(1)\nout(v.map(|a| a.x).sum())\n"),
            "Y112"
        ),
        "a closure parameter pinned to `Int` is `check`'s to report"
    );
    let src = "struct P { x: Int, y: Int }\n\
               fn getx(a) { a.x }\n\
               out(getx(P { x: 1, y: 2 }))\n";
    assert_eq!(scheme_of(src, "getx").as_deref(), Some("(P) -> Int"));
    let src = "struct N { name: Text, n: Int }\n\
               fn label(v) { v.name }\n\
               out(label(N { name: \"t\", n: 1 }))\n";
    assert_eq!(scheme_of(src, "label").as_deref(), Some("(N) -> Text"));
    assert!(is_clean_with_lower(
        "struct Inner { x: Int }\nstruct Outer { inner: Inner }\n\
         fn deep(o) -> Int { o.inner.x }\n\
         out(deep(Outer { inner: Inner { x: 42 } }))\n"
    ));
    let diags = analyze_and_lower_diags(
        "struct P { x: Int, y: Int }\nstruct Q { x: Text }\n\
         fn getx(a) { a.x }\nout(getx(P { x: 1, y: 2 }))\nout(getx(Q { x: \"t\" }))\n",
    );
    assert!(
        diags.iter().any(|d| code_of(d) == "Y001"),
        "two records at one field-read site is Y001, got {diags:?}"
    );
    assert!(is_clean_with_lower(
        "struct P { x: Int, y: Int }\nvar p = P { x: 1, y: 2 }\nout(p.x + p.y)\n"
    ));
    assert!(is_clean_with_lower(
        "struct P { x: Int, y: Int }\n\
         fn getx(a) { a.x }\nfn twice(b) { getx(b) + getx(b) }\n\
         out(twice(P { x: 4, y: 0 }))\n"
    ));
}

#[test]
fn a_closure_parameter_is_a_pattern_and_must_match_every_argument() {
    let src = "var v = Vec()\nv.push((1, \"a\"))\nvar s = v.map(|(n, t)| t)\nout(s)\n";
    assert_eq!(scheme_of(src, "n").as_deref(), Some("Int"));
    assert_eq!(scheme_of(src, "t").as_deref(), Some("Text"));
    let src = "struct P { x: Int, tag: Text }\n\
               var f = |P { x, tag }| tag\nout(f(P { x: 1, tag: \"a\" }))\n";
    assert_eq!(scheme_of(src, "x").as_deref(), Some("Int"));
    assert_eq!(scheme_of(src, "tag").as_deref(), Some("Text"));
    let src = "var v = Vec()\nv.push((1, 2))\nvar s = v.map(|kv| kv.0)\nout(s)\n";
    assert_eq!(scheme_of(src, "kv").as_deref(), Some("(Int, Int)"));
    let src = "var f = |(a, b): (Int, Text)| b\nout(f((1, \"z\")))\n";
    assert_eq!(scheme_of(src, "a").as_deref(), Some("Int"));
    assert_eq!(scheme_of(src, "b").as_deref(), Some("Text"));
    for src in [
        "var f = |Some(n)| n\nout(f(Some(1)))\n",
        "var f = |(1, b)| b\nout(f((1, 2)))\n",
        "var f = |(a, (2, c))| c\nout(f((1, (2, 3))))\n",
        "struct P { x: Int }\nvar f = |P { x: 1 }| 0\nout(f(P { x: 1 }))\n",
    ] {
        let diags = analyze_and_lower_diags(src);
        assert!(
            diags.iter().any(|d| code_of(d) == "Y125"),
            "{src} must be Y125, got {diags:?}"
        );
    }
    for src in [
        "var f = |(a, b)| a + b\nout(f((1, 2)))\n",
        "var f = |(a, _)| a\nout(f((1, 2)))\n",
        "var f = |(a, b), c| a + b + c\nout(f((1, 2), 3))\n",
        "var f = |a, (b, c)| a + b + c\nout(f(1, (2, 3)))\n",
        "var f = |(a, (b, c))| a + b + c\nout(f((1, (2, 3))))\n",
        "struct P { x: Int, y: Int }\nvar f = |P { x }| x\nout(f(P { x: 1, y: 2 }))\n",
    ] {
        assert!(is_clean_with_lower(src), "{src} must be accepted");
    }
    let diags = analyze_and_lower_diags("var f = |(a, b)| a\nout(f(1))\n");
    assert!(
        diags.iter().any(|d| code_of(d) == "Y001"),
        "expected Y001, got {diags:?}"
    );
    assert!(is_clean_with_lower(
        "var g = |(a, b)| { var h = |n| n + a + b\n h(1) }\nout(g((2, 3)))\n"
    ));
    assert!(is_clean_with_lower(
        "var f = |(a, b)| { a = 5\n b }\nout(f((1, 2)))\n"
    ));
    let diags = analyze_and_lower_diags("var f = |(a, b)| { a = \"x\"\n b }\nout(f((1, 2)))\n");
    assert!(
        diags.iter().any(|d| code_of(d) == "Y001"),
        "…and the component's type is what the write must match: {diags:?}"
    );
}

#[test]
fn a_zero_argument_accessor_is_a_call_and_a_bare_name_is_a_field() {
    assert!(is_clean_with_lower(
        "var v = Vec()\nv.push(1)\nout(v.len())\n"
    ));
    assert!(is_clean_with_lower(
        "var m = Map()\nm[1] = 2\nout(m.len())\n"
    ));
    for src in [
        "var v = Vec()\nv.push(1)\nout(v.len)\n",
        "var m = Map()\nm[1] = 2\nout(m.len)\n",
        "var t = \"abc\"\nout(t.len)\n",
    ] {
        let diags = analyze(src).diagnostics;
        assert!(
            diags.iter().any(|d| code_of(d) == "Y112"),
            "{src} must be Y112 at `check`, got {diags:?}"
        );
    }
    assert!(is_clean_with_lower(
        "struct P { len: Int }\nvar p = P { len: 7 }\nout(p.len)\n"
    ));
    let diags = analyze("struct P { len: Int }\nvar p = P { len: 7 }\nout(p.len())\n").diagnostics;
    assert!(
        diags.iter().any(|d| code_of(d) == "Y110"),
        "a record has no rows: {diags:?}"
    );
    let src = "struct P { len: Int }\nfn n(a) { a.len }\nout(n(P { len: 7 }))\n";
    assert_eq!(scheme_of(src, "n").as_deref(), Some("(P) -> Int"));
}

#[test]
fn a_parser_template_in_value_position_is_reported() {
    let diags = analyze_and_lower_diags("var t = `n = {int}`\nout(t)\n");
    assert!(
        diags.iter().any(|d| code_of(d) == "Y023"),
        "expected Y023 for a template in value position, got {diags:?}"
    );
    assert!(is_clean_with_lower("var n = read `n = {int}`\nout(n)\n"));
    let errors = diags
        .iter()
        .filter(|d| d.severity == Severity::Error)
        .count();
    assert_eq!(errors, 1, "expected exactly one error, got {diags:?}");
}

#[test]
fn a_bad_field_on_a_choice_payload_is_reported_at_check() {
    const READ: &str = "var ms = read scan(choice(Mul: `mul({a:int},{b:int})`, Do: `do()`))\n";
    let diags = analyze(&format!(
        "{READ}for m in ms {{ match m {{ Mul(p) => out(p.zzz), Do(_) => {{}} }} }}\n"
    ))
    .diagnostics;
    let y112 = diags
        .iter()
        .find(|d| code_of(d) == "Y112")
        .unwrap_or_else(|| panic!("expected Y112 from analysis alone, got {diags:?}"));
    assert!(
        y112.message.contains("{ a: Int, b: Int }"),
        "the message must name the payload record type: {}",
        y112.message
    );
    let src = format!("{READ}for m in ms {{ match m {{ Mul(p) => out(p.a), Do(_) => {{}} }} }}\n");
    assert_eq!(
        scheme_of(&src, "p").as_deref(),
        Some("{ a: Int, b: Int }"),
        "the payload binding is the anonymous record, not a fresh variable"
    );
}

#[test]
fn a_record_pattern_needs_no_head_and_pins_from_the_scrutinee() {
    let src = "var ms = read scan(choice(Mul: `mul({a:int},{b:int})`, Do: `do()`))\n\
               for m in ms { match m { Mul({a, b}) => out(a * b), Do(_) => {} } }\n";
    assert!(
        errors_of(src).is_empty(),
        "the headless form must parse and check: {:?}",
        errors_of(src)
    );
    assert_eq!(scheme_of(src, "a").as_deref(), Some("Int"));
    assert_eq!(scheme_of(src, "b").as_deref(), Some("Int"));
    const DECL: &str = "struct P { x: Int, tag: Text }\n";
    let src =
        format!("{DECL}var p = P {{ x: 1, tag: \"a\" }}\nvar r = match p {{ {{x, tag}} => x }}\n");
    assert_eq!(scheme_of(&src, "x").as_deref(), Some("Int"));
    assert_eq!(scheme_of(&src, "tag").as_deref(), Some("Text"));
    let src = format!(
        "{DECL}var ps = Vec()\nps.push(P {{ x: 1, tag: \"a\" }})\n\
         for {{x, tag}} in ps {{ out(x) out(tag) }}\n"
    );
    assert_eq!(scheme_of(&src, "x").as_deref(), Some("Int"));
    assert_eq!(scheme_of(&src, "tag").as_deref(), Some("Text"));
    let src = format!("{DECL}var f = |q: P| match q {{ {{x, tag}} => x }}\n");
    assert_eq!(scheme_of(&src, "x").as_deref(), Some("Int"));
    for (arm, code) in [("{x, zzz}", "Y114"), ("{x, x: q}", "Y115")] {
        let src =
            format!("{DECL}var p = P {{ x: 1, tag: \"a\" }}\nvar r = match p {{ {arm} => 1 }}\n");
        let diags = analyze_and_lower_diags(&src);
        assert!(
            diags.iter().any(|d| code_of(d) == code),
            "{arm} must be {code}, got {diags:?}"
        );
    }
}

#[test]
fn a_headless_record_pattern_needs_a_record_it_can_see() {
    const DECL: &str = "struct P { x: Int, y: Int }\n";
    for src in [
        format!("{DECL}var f = |{{x, y}}| x + y\nout(f(P {{ x: 1, y: 2 }}))\n"),
        format!(
            "{DECL}fn g(q) {{ match q {{ {{x, y}} => x + y }} }}\nout(g(P {{ x: 1, y: 2 }}))\n"
        ),
    ] {
        let diags = analyze(&src).diagnostics;
        assert!(
            diags.iter().any(|d| code_of(d) == "Y123"),
            "{src} must be Y123 from analysis alone, got {diags:?}"
        );
    }
    for src in [
        format!("{DECL}var f = |P {{x, y}}| x + y\nout(f(P {{ x: 1, y: 2 }}))\n"),
        format!(
            "{DECL}var f = |q: P| match q {{ {{x, y}} => x + y }}\nout(f(P {{ x: 1, y: 2 }}))\n"
        ),
    ] {
        assert!(is_clean_with_lower(&src), "{src} must be accepted");
    }
    let diags = analyze("var n = 1\nvar r = match n { {a, b} => a + b }\n").diagnostics;
    let y123 = diags
        .iter()
        .find(|d| code_of(d) == "Y123")
        .unwrap_or_else(|| panic!("expected Y123, got {diags:?}"));
    assert!(
        y123.message
            .contains("`{ … }` is not a pattern for `Int`"),
        "the message must name the headless shape: {}",
        y123.message
    );
}

#[test]
fn a_record_pattern_with_a_head_and_no_fields_is_still_a_record_pattern() {
    const DECL: &str = "struct Q { z: Int }\nstruct P { a: Int }\nvar q = Q { z: 1 }\n";
    let diags = analyze_and_lower_diags(&format!("{DECL}var r = match q {{ P {{}} => 1 }}\n"));
    assert!(
        diags.iter().any(|d| code_of(d) == "Y001"),
        "expected Y001, got {diags:?}"
    );
    assert!(is_clean_with_lower(&format!(
        "{DECL}var p = P {{ a: 1 }}\nvar r = match p {{ P {{}} => 1 }}\n"
    )));
    let errors = errors_of(&format!("{DECL}var r = match q {{ {{}} => 1 }}\n"));
    assert!(
        errors.iter().any(|e| e.starts_with("P001")),
        "an empty headless record pattern is a parse error: {errors:?}"
    );
}

#[test]
fn an_unknown_variant_is_reported_at_check() {
    let diags = analyze(
        "enum Move { Step(Int), Stay }\nvar m = Stay\nvar r = match m { Bogus(n) => n, _ => 0 }\n",
    )
    .diagnostics;
    assert!(
        diags.iter().any(|d| code_of(d) == "Y122"),
        "expected Y122 from analysis alone, got {diags:?}"
    );
    let diags = analyze(
        "var ms = read scan(choice(Mul: `mul({a:int},{b:int})`, Do: `do()`))\n\
         for m in ms { match m { Bogus(p) => out(1), _ => {} } }\n",
    )
    .diagnostics;
    let y122 = diags
        .iter()
        .find(|d| code_of(d) == "Y122")
        .unwrap_or_else(|| panic!("expected Y122 from analysis alone, got {diags:?}"));
    assert!(
        y122.message
            .contains("`{ Mul({ a: Int, b: Int }) | Do(Unit) }` has no variant `Bogus`"),
        "the anonymous enum must render its variants: {}",
        y122.message
    );
    let scheme = scheme_of(
        "enum Move { Step(Int), Stay }\nfn score(m) { match m { Step(n) => n, Stay => 0 } }\n",
        "score",
    )
    .expect("score has a scheme");
    assert_eq!(scheme, "(Move) -> Int");
}

#[test]
fn a_list_literal_is_a_vec_of_one_element_type() {
    assert_eq!(expr_type("[1, 2, 3]"), "Vec[Int]");
    assert_eq!(expr_type("[1]"), "Vec[Int]");
    assert_eq!(expr_type("[\"a\", \"b\"]"), "Vec[Text]");
    assert_eq!(expr_type("[[1], [2]]"), "Vec[Vec[Int]]");
    assert_eq!(expr_type("[(1, \"a\")]"), "Vec[(Int, Text)]");
    assert_eq!(expr_type("[1 + 1, 2 * 3]"), "Vec[Int]");
    assert!(!has_type_error(
        "fn main() -> Int { var v: Vec[Int] = []\n v.len() }"
    ));
    assert!(!has_type_error(
        "fn main() -> Int { var v = []\n v.push(1)\n v.len() }"
    ));
    assert!(has_type_error("var v = [1, \"a\"]"));
    assert!(has_type_error("var v = [\"a\", 1]"));
    assert!(has_type_error("var v = [[1], [\"a\"]]"));
    let diags = analyze("var v = [1, \"a\"]").diagnostics;
    let y001 = diags
        .iter()
        .find(|d| code_of(d) == "Y001")
        .unwrap_or_else(|| panic!("expected Y001, got {diags:?}"));
    assert!(
        y001.message.contains("expected Int, found Text"),
        "the element written second is what is wrong: {}",
        y001.message
    );
    assert!(has_type_error(
        "fn main() -> Int { var v: Vec[Text] = [1, 2]\n v.len() }"
    ));
}

#[test]
fn a_list_literal_is_a_vec_everywhere_a_vec_goes() {
    for src in [
        "fn main() -> Unit { for x in [1, 2, 3] { out(x) } }",
        "fn main() -> Int { [1, 2, 3].len() }",
        "fn main() -> Int { [1, 2, 3][0] }",
        "fn main() -> Int { var v: Vec[Int] = [1]\n v.len() }",
        "fn total(r) { var t = 0\n for i in r { t = t + i }\n t }\n\
         fn main() -> Int { total([1, 2, 3]) }",
    ] {
        assert!(!has_type_error(src), "must be accepted: {src}");
    }
    assert!(has_type_error(
        "fn main() -> Unit { for x in [1, 2] { var t: Text = x\n out(t) } }"
    ));
}

#[test]
fn a_text_is_iterable_and_yields_char() {
    assert!(!has_type_error(
        "fn main() -> Unit { for c in \"abc\" { out(c) } }"
    ));
    assert!(!has_type_error(
        "fn main() -> Int { var n = 0\n for c in \"abc\" { n = n + c.to_int() }\n n }"
    ));
    assert!(has_type_error(
        "fn main() -> Unit { for c in \"abc\" { var t: Text = c\n out(t) } }"
    ));
    assert!(!has_type_error(
        "fn main() -> Unit { var s = \"abc\"\n for c in s { out(c) } }"
    ));
    assert!(!has_type_error(
        "fn each(t: Text) -> Unit { for c in t { out(c) } }\nfn main() -> Unit { each(\"ab\") }"
    ));
    assert!(has_type_error(
        "fn main() -> Unit { for c in \"ab\"[0] { out(c) } }"
    ));
    assert!(has_type_error(
        "fn main() -> Unit { for i in 3 { out(i) } }"
    ));
}

#[test]
fn a_pipeline_walks_every_iterable_and_binds_what_the_for_loop_would() {
    for src in [
        "fn main() -> Int { var s = Set()\n s.insert(1)\n s.map(|x| x * 2).sum() }",
        "fn main() -> Int { var d = Deque()\n d.push_back(1)\n d.map(|x| x + 1).sum() }",
        "fn main() -> Int { var h = MinHeap()\n h.push(1)\n h.count() }",
        "fn main() -> Int { var h = MaxHeap()\n h.push(1)\n h.filter(|x| x > 0).count() }",
        "fn main() -> Int { var b = BitSet()\n b.insert(1)\n b.map(|n| n * n).sum() }",
        "fn main() -> Int { (0..10).map(|x| x * 2).sum() }",
        "fn main() -> Int { \"hello\".count(|c| c == \"l\"[0]) }",
    ] {
        assert!(!has_type_error(src), "{src}");
    }
    assert!(!has_type_error(
        "fn main() -> Int { var m = Map()\n m[\"a\"] = 1\n m.map(|kv| kv.1).sum() }"
    ));
    assert!(!has_type_error(
        "fn main() -> Int { var c = [\"a\"].frequencies()\n c.filter(|p| p.1 > 0).count() }"
    ));
    assert!(has_type_error(
        "fn main() -> Unit { var g = Grid()\n out(g.map(|c| c)) }"
    ));
    assert!(!has_type_error(
        "fn main() -> Int { var g = Grid()\n g.cells().count() }"
    ));
    assert!(!has_type_error(
        "fn total(v) { v.map(|x| x * 2).sum() }\n\
         fn main() -> Int { var s = Set()\n s.insert(1)\n total(s) }"
    ));
}

#[test]
fn a_conversion_reports_a_wrong_item_shape_at_the_method_name() {
    let errs = errors_of("fn main() -> Unit { out([1, 2].to_map()) }");
    assert_eq!(errs.len(), 1, "{errs:?}");
    assert!(
        errs[0].starts_with("Y001") && errs[0].contains("found Int"),
        "a wrong item shape is a type error, not a missing method: {errs:?}"
    );
    let errs = errors_of("fn main() -> Unit { out([\"a\"].to_bitset()) }");
    assert_eq!(errs.len(), 1, "{errs:?}");
    assert!(
        errs[0].starts_with("Y001") && errs[0].contains("found Text"),
        "{errs:?}"
    );
    for src in [
        "fn main() -> Int { var m = Map()\n m[\"a\"] = 1\n m.to_vec().count() }",
        "fn main() -> Int { var s = Set()\n s.insert(1)\n s.to_vec().sum() }",
        "fn main() -> Int { var m = Map()\n m[\"a\"] = 1\n m.to_map().len() }",
        "fn main() -> Int { [\"a\"].frequencies().to_counter().len() }",
        "fn main() -> Int { (0..3).to_deque().len() }",
        "fn main() -> Int { [1, 2].to_min_heap().pop() }",
        "fn main() -> Int { [1, 2].to_max_heap().pop() }",
        "fn main() -> Int { [1, 2].to_bitset().len() }",
        "fn main() -> Int { \"ab\".to_vec().count() }",
    ] {
        assert!(!has_type_error(src), "{src}");
    }
}

#[test]
fn a_pipelines_second_source_is_a_vec_and_the_spelling_is_to_vec() {
    assert!(!has_type_error(
        "fn main() -> Int { var s = Set()\n s.insert(1)\n s.zip([1, 2]).count() }"
    ));
    assert!(has_type_error(
        "fn main() -> Int { var s = Set()\n s.insert(1)\n [1, 2].zip(s).count() }"
    ));
    assert!(!has_type_error(
        "fn main() -> Int { var s = Set()\n s.insert(1)\n [1, 2].zip(s.to_vec()).count() }"
    ));
    assert!(!has_type_error(
        "fn main() -> Int { [1, 2].flat_map(|x| [x, x]).sum() }"
    ));
    assert!(has_type_error(
        "fn main() -> Int { var s = Set()\n s.insert(1)\n [1, 2].flat_map(|x| s).sum() }"
    ));
}

#[test]
fn sorted_by_key_orders_what_sorted_cannot() {
    let pairs = "var m = Map()\n m[\"a\"] = 1\n var pairs = m.keys().zip(m.values())\n";
    assert!(
        has_type_error(&format!(
            "fn main() -> Unit {{ {pairs} out(pairs.sorted()) }}"
        )),
        "a composite is not orderable"
    );
    assert!(
        !has_type_error(&format!(
            "fn main() -> Unit {{ {pairs} out(pairs.sorted_by_key(|p| p.1)) }}"
        )),
        "…but the key it carries is"
    );
    assert!(has_type_error(
        "fn main() -> Unit { out([1, 2].sorted_by_key(|x| |y| y)) }"
    ));
    assert!(!has_type_error(
        "fn main() -> Unit { var s = Set()\n s.insert(\"a\")\n out(s.sorted_by_key(|t| t.len())) }"
    ));
}

#[test]
fn reduces_accumulator_is_the_element_type() {
    for src in [
        "fn main() -> Unit { out([\"ab\", \"c\"].reduce(|a, b| a.len())) }",
        "fn main() -> Unit { out([\"ab\", \"c\"].reduce(|a, b| 1)) }",
        "fn main() -> Unit { out([1, 2].reduce(|a, b| a > b)) }",
    ] {
        assert!(has_type_error(src), "{src} must be Y001");
    }
    let diags = analyze("fn main() -> Unit { out([1, 2].reduce(|a, b| a.sqrt())) }").diagnostics;
    let y110 = diags
        .iter()
        .find(|d| code_of(d) == "Y110")
        .unwrap_or_else(|| panic!("expected Y110, got {diags:?}"));
    assert!(
        y110.message.contains("on type `Int`"),
        "the receiver is pinned by the element type: {}",
        y110.message
    );
    for src in [
        "fn main() -> Unit { out([1, 2, 7].reduce(|a, b| a + b)) }",
        "fn main() -> Unit { out([1, 2, 7].reduce(|a, b| max(a, b))) }",
        "fn main() -> Unit { out([\"a\", \"b\"].reduce(|a, b| a + b)) }",
    ] {
        assert!(!has_type_error(src), "{src} must be accepted");
    }
    assert!(!has_type_error(
        "fn main() -> Unit { out([1, 2, 7].fold(\"\", |acc, n| acc)) }"
    ));
}

#[test]
fn the_retired_let_keyword_is_named_rather_than_guessed_at() {
    for src in ["let x = 1\n", "fn f() -> Int {\n    let y = 2\n    y\n}\n"] {
        let diags = analyze(src).diagnostics;
        let n009 = diags
            .iter()
            .find(|d| code_of(d) == "N009")
            .unwrap_or_else(|| panic!("{src} must be N009, got {diags:?}"));
        assert!(
            n009.message.contains("written with `var`"),
            "{}",
            n009.message
        );
        assert_eq!(
            n009.suggestions
                .first()
                .and_then(|s| s.replacement.as_deref()),
            Some("var"),
            "the fix is machine-applicable"
        );
        assert!(
            !diags
                .iter()
                .any(|d| code_of(d) == "N001" && d.message.contains("`let`")),
            "and it replaces the N001 rather than joining it: {diags:?}"
        );
    }
    assert!(!has_name_error("var let = 5\nout(let)\n"));
    assert!(has_name_error("out(lets)\n"));
}

#[test]
fn a_char_literal_is_a_char() {
    assert_eq!(expr_type("'a'"), "Char");
    assert_eq!(expr_type("'\\n'"), "Char");
    assert_eq!(expr_type("'é'"), "Char");
    assert_eq!(expr_type("'😀'"), "Char");
}

#[test]
fn a_char_literal_pattern_unifies_with_a_char_scrutinee() {
    assert!(!has_type_error(
        "fn f(c: Char) -> Int { match c { '#' => 1, '.' => 2, _ => 0 } }"
    ));
    assert!(!has_type_error(
        "fn f(t: Text) -> Int { match t[0] { '#' => 1, _ => 0 } }"
    ));
}

#[test]
fn a_char_pattern_against_an_int_scrutinee_is_y001() {
    let errs = errors_of("fn f(n: Int) -> Int { match n { 'a' => 1, _ => 0 } }");
    assert!(
        errs.iter().any(|e| e.contains("Y001")),
        "expected a type error, got {errs:?}"
    );
    assert!(has_type_error(
        "fn f(c: Char) -> Int { match c { 1 => 1, _ => 0 } }"
    ));
}

#[test]
fn a_char_literal_and_a_text_subscript_are_the_same_type() {
    assert!(!has_type_error(
        "fn main() -> Unit { out('#' == \"#\"[0]) }"
    ));
    assert!(!has_type_error("fn main() -> Unit { out('a' < 'b') }"));
    assert!(has_type_error("fn main() -> Unit { out('a' == \"a\") }"));
}

#[test]
fn a_char_literal_lowers_to_a_lit_char() {
    let (analysis, module) = analyze_and_lower("var c = 'a'\nout(c)\n");
    let entry = entry_fn(&module);
    let init = match &entry.body.stmts[0] {
        TypedStmt::Var { init, .. } => init,
        other => panic!("expected a var statement, got {other:?}"),
    };
    match init {
        TypedExpr::Lit {
            value: Lit::Char(code),
            ty,
            ..
        } => {
            assert_eq!(*code, 0x61);
            assert_eq!(analysis.db.render(&ty), "Char");
        }
        other => panic!("expected Lit::Char, got {other:?}"),
    }
    for (src, code) in [("'\\n'", 0x0A_u32), ("'é'", 0xE9), ("'😀'", 0x1_F600)] {
        let (_, module) = analyze_and_lower(&format!("var c = {src}\n"));
        let entry = entry_fn(&module);
        let init = match &entry.body.stmts[0] {
            TypedStmt::Var { init, .. } => init,
            other => panic!("expected a var statement, got {other:?}"),
        };
        assert!(
            matches!(init, TypedExpr::Lit { value: Lit::Char(c), .. } if *c == code),
            "{src} must lower to U+{code:04X}, got {init:?}"
        );
    }
}

#[test]
fn a_sized_constructor_takes_its_element_type_from_the_fill() {
    assert_eq!(expr_type("Vec(3, false)"), "Vec[Bool]");
    assert_eq!(expr_type("Vec(3, 0)"), "Vec[Int]");
    assert_eq!(expr_type("Vec(3, \"a\")"), "Vec[Text]");
    assert_eq!(expr_type("Vec(3, '#')"), "Vec[Char]");
    assert_eq!(expr_type("Grid(2, 3, 0)"), "Grid[Int]");
    assert_eq!(expr_type("Grid(2, 3, false)"), "Grid[Bool]");
    assert_eq!(expr_type("Grid(2, 3, '.')"), "Grid[Char]");
    assert_eq!(expr_type("Grid(2, 2, Vec[Int]())"), "Grid[Vec[Int]]");
    assert_eq!(expr_type("Vec[Int]()"), "Vec[Int]");
    assert_eq!(expr_type("Grid[Int]()"), "Grid[Int]");
}

#[test]
fn a_written_type_argument_constrains_a_sized_constructor() {
    assert_eq!(expr_type("Vec[Bool](3, false)"), "Vec[Bool]");
    assert_eq!(expr_type("Grid[Char](2, 2, '.')"), "Grid[Char]");
    assert!(has_type_error("var v = Vec[Int](3, false)\n"));
    assert!(has_type_error("var g = Grid[Bool](2, 2, 0)\n"));
    assert!(has_type_error("var v = Vec(\"a\", 0)\n"));
    assert!(has_type_error("var g = Grid(2, false, 0)\n"));
}

#[test]
fn a_sized_constructor_with_the_wrong_count_names_its_own_arity() {
    for (src, expected) in [
        (
            "var v = Vec(3)\n",
            "Y024: this function takes 2 argument(s), but 1 were given",
        ),
        (
            "var v = Vec(1, 2, 3)\n",
            "Y024: this function takes 2 argument(s), but 3 were given",
        ),
        (
            "var g = Grid(2, 3)\n",
            "Y024: this function takes 3 argument(s), but 2 were given",
        ),
        (
            "var g = Grid(1)\n",
            "Y024: this function takes 3 argument(s), but 1 were given",
        ),
    ] {
        assert!(
            errors_of(src).iter().any(|e| e == expected),
            "{src:?} must report {expected:?}, got {:?}",
            errors_of(src)
        );
    }
}

#[test]
fn only_vec_and_grid_are_sized_and_the_rest_still_take_nothing() {
    for src in [
        "var s = Set(3, 0)\n",
        "var m = Map(1, 2)\n",
        "var d = Deque(3, 0)\n",
        "var c = Counter(3, 0)\n",
        "var h = MinHeap(3, 0)\n",
        "var h = MaxHeap(3, 0)\n",
        "var b = BitSet(3)\n",
    ] {
        let errors = errors_of(src);
        assert!(
            errors
                .iter()
                .any(|e| e.starts_with("Y024: this function takes 0 argument(s)")),
            "{src:?} must still be measured against the nullary form, got {errors:?}"
        );
    }
    for src in [
        "var s = Set[Int]()\n",
        "var m = Map[Int, Int]()\n",
        "var d = Deque[Int]()\n",
        "var b = BitSet()\n",
        "var v = Vec[Int]()\n",
        "var g = Grid[Int]()\n",
    ] {
        assert!(errors_of(src).is_empty(), "{src:?}: {:?}", errors_of(src));
    }
}

#[test]
fn a_shadowed_constructor_name_is_not_a_sized_constructor() {
    let shadowed = "var Vec = |n: Int, f: Bool| n\nvar probe = Vec(3, false)\n";
    assert_eq!(
        scheme_of(shadowed, "probe").as_deref(),
        Some("Int"),
        "the shadow's own return type, not `Vec[Bool]`"
    );
    assert!(
        errors_of("var Vec = |n: Int, f: Bool| n\nvar p = Vec(1, true, 2)\n")
            .iter()
            .any(|e| e.starts_with("Y024"))
    );
}

#[test]
fn a_constructor_still_has_no_function_value() {
    for name in ["Vec", "Grid", "Set", "Map"] {
        let errors = errors_of(&format!("var f = {name}\n"));
        assert!(
            errors.iter().any(|e| e.starts_with("Y022")),
            "`{name}` in value position must still be Y022, got {errors:?}"
        );
    }
}

#[test]
fn text_plus_an_int_is_still_y001_beside_a_hole_that_renders_it() {
    let src = "fn main() {\n    var n = 3\n    out(\"n = {n}\")\n    out(\"n = \" + n)\n}\n";
    let errors = errors_of(src);
    assert_eq!(
        errors.len(),
        1,
        "the hole is clean and the `+` is not: {errors:?}"
    );
    assert!(
        errors[0].starts_with("Y001") && errors[0].contains("expected Text, found Int"),
        "`+` must still refuse an Int operand, got {errors:?}"
    );
}

#[test]
fn a_hole_accepts_any_type() {
    for src in [
        "fn main() { var v = [1, 2, 3]\n    out(\"{v}\") }",
        "fn main() { var t = (1, \"x\")\n    out(\"{t}\") }",
        "fn main() { var b = true\n    out(\"{b}\") }",
        "fn main() { var f = 1.5\n    out(\"{f}\") }",
        "fn main() { var c = '#'\n    out(\"{c}\") }",
        "fn main() { var s = Set[Int]()\n    out(\"{s}\") }",
        "fn main() { var u = ()\n    out(\"{u}\") }",
    ] {
        assert!(errors_of(src).is_empty(), "{src}: {:?}", errors_of(src));
    }
}

#[test]
fn an_interpolated_literal_is_text() {
    assert_eq!(
        scheme_of("var n = 1\nvar s = \"n = {n}\"\n", "s").as_deref(),
        Some("Text")
    );
    assert!(errors_of("var n = 1\nvar s: Text = \"{n}\" + \"!\"\n").is_empty());
}

#[test]
fn a_mistake_inside_a_hole_is_still_reported() {
    assert!(has_name_error("fn main() { out(\"{nope}\") }"));
    let errors = errors_of("fn main() { var n = 1\n    out(\"{n + true}\") }");
    assert!(
        errors.iter().any(|e| e.starts_with("Y001")),
        "expected the hole's own mismatch, got {errors:?}"
    );
}

#[test]
fn an_inner_constructor_has_its_own_synthesized_type() {
    let src = "var v = read sections(lines(`{a:int},{b:int}`))\n";
    let analysis = analyze(src);
    assert!(
        analysis.diagnostics.is_empty(),
        "{:?}",
        analysis.diagnostics
    );
    assert_eq!(analysis.parser_exprs.len(), 1, "one `read` body");
    let index = &analysis.parser_exprs[0];

    let root = index
        .type_at(at(src, "sections"))
        .expect("the root has a type");
    let inner = index
        .type_at(at(src, "lines"))
        .expect("the inner constructor has a type");

    assert_eq!(
        analysis.db.render(&root),
        "Vec[Vec[{ a: Int, b: Int }]]"
    );
    assert_eq!(
        analysis.db.render(&inner),
        "Vec[{ a: Int, b: Int }]",
        "the inner node's type, not the root's"
    );
}

#[test]
fn a_capture_type_and_its_template_have_distinct_types() {
    let src = "var v = read lines(`{a:int},{b:int}`)\n";
    let analysis = analyze(src);
    let index = &analysis.parser_exprs[0];
    let int_at = at(src, "int}");
    let capture_ty = index
        .type_at(int_at)
        .expect("the capture parser has a type");
    assert_eq!(analysis.db.render(&capture_ty), "Int");

    let template_at = at(src, "`{a");
    let template_ty = index.type_at(template_at).expect("the template has a type");
    assert_eq!(
        analysis.db.render(&template_ty),
        "{ a: Int, b: Int }"
    );
}

#[test]
fn the_cursor_mode_narrows_from_expression_to_atomic_name() {
    let src = "var v = read lines(`x {n:int}`)\n";
    let analysis = analyze(src);
    let index = &analysis.parser_exprs[0];
    assert_eq!(index.mode_at(at(src, "var")), ParserMode::Outside);
    assert_eq!(index.mode_at(at(src, "lines")), ParserMode::Expression);
    assert_eq!(index.mode_at(at(src, "x {")), ParserMode::Template);
    assert_eq!(index.mode_at(at(src, "n:int")), ParserMode::Capture);
    assert_eq!(index.mode_at(at(src, "int}")), ParserMode::AtomicName);
}

#[test]
fn a_capture_reports_its_name_and_parser_spans_separately() {
    let src = "var v = read lines(`{name:word} {n:int}`)\n";
    let analysis = analyze(src);
    let index = &analysis.parser_exprs[0];

    let captures = index.captures();
    assert_eq!(captures.len(), 2, "two captures");

    let first = captures[0];
    assert_eq!(
        text_at(src, first.span),
        "{name:word}",
        "the capture span covers both braces"
    );
    let name_span = first.name_span.expect("a named capture has a name span");
    assert_eq!(text_at(src, name_span), "name");
    assert_eq!(text_at(src, first.parser_span), "word");
    assert_ne!(
        name_span, first.parser_span,
        "four distinct ranges, not two"
    );
}

#[test]
fn an_anonymous_capture_has_no_name_span() {
    let src = "var v = read lines(`{int}`)\n";
    let analysis = analyze(src);
    let captures = analysis.parser_exprs[0].captures();
    assert_eq!(captures.len(), 1);
    assert!(captures[0].name_span.is_none());
}

#[test]
fn a_padded_capture_name_spans_only_the_name() {
    let src = "var v = read lines(`{ n :int}`)\n";
    let analysis = analyze(src);
    assert!(
        analysis.diagnostics.is_empty(),
        "{:?}",
        analysis.diagnostics
    );
    let captures = analysis.parser_exprs[0].captures();
    let name_span = captures[0].name_span.expect("named");
    assert_eq!(
        text_at(src, name_span),
        "n",
        "the span is the trimmed name, not the padding around it"
    );
}

#[test]
fn a_template_literal_run_spans_the_source_it_was_decoded_from() {
    let src = "var v = read lines(`a\\`b{n:int}`)\n";
    let analysis = analyze(src);
    assert!(
        analysis.diagnostics.is_empty(),
        "{:?}",
        analysis.diagnostics
    );
    let lits: Vec<_> = analysis.parser_exprs[0]
        .template_literals()
        .into_iter()
        .filter(|s| s.end > s.start)
        .collect();
    assert_eq!(lits.len(), 1, "one literal run, got {lits:?}");
    let s = text_at(src, lits[0]);
    assert_eq!(s, "a\\`b", "four source bytes for three decoded characters");
}

#[test]
fn a_constructor_reports_its_keyword_span() {
    let src = "var v = read sections(lines(int))\n";
    let analysis = analyze(src);
    let ctors = analysis.parser_exprs[0].constructors();
    let named: Vec<(&str, &str)> = ctors
        .iter()
        .map(|(span, kw)| (text_at(src, *span), *kw))
        .collect();
    assert_eq!(named, vec![("sections", "sections"), ("lines", "lines")]);
}

#[test]
fn a_rejected_parser_expression_records_no_index_entry() {
    let src = "var v = read frobnicate(int)\n";
    let analysis = analyze(src);
    assert!(
        !analysis.diagnostics.is_empty(),
        "an unknown constructor reports"
    );
    assert!(analysis.parser_exprs.is_empty(), "and indexes nothing");
}

#[test]
fn a_parse_expression_is_indexed_too() {
    let src = "fn f(s: Text) -> Vec[Int] { parse(s, lines(int)) }\n";
    let analysis = analyze(src);
    assert!(
        analysis.diagnostics.is_empty(),
        "{:?}",
        analysis.diagnostics
    );
    assert_eq!(analysis.parser_exprs.len(), 1);
    let ty = analysis.parser_exprs[0]
        .type_at(at(src, "lines"))
        .expect("indexed");
    assert_eq!(analysis.db.render(&ty), "Vec[Int]");
}

#[test]
fn two_read_expressions_are_two_entries() {
    let src = "fn a() -> Vec[Int] { read lines(int) }\nfn b() -> Grid[Char] { read grid(char) }\n";
    let analysis = analyze(src);
    assert_eq!(analysis.parser_exprs.len(), 2);
    let first = &analysis.parser_exprs[0];
    let second = &analysis.parser_exprs[1];
    assert!(first.contains(at(src, "lines")));
    assert!(!first.contains(at(src, "grid")));
    assert!(second.contains(at(src, "grid")));
}

#[test]
fn monomorphic_fn_passes_through() {
    let names = mono_names("fn inc(n: Int) -> Int { n + 1 }\nfn main() -> Int { inc(41) }");
    assert!(names.contains(&"inc".to_string()), "got {names:?}");
    assert!(names.contains(&"main".to_string()), "got {names:?}");
}

#[test]
fn generic_fn_is_instantiated_and_original_dropped() {
    let names = mono_names("fn id(x) { x }\nfn main() -> Int { id(42) }");
    assert!(
        !names.contains(&"id".to_string()),
        "original generic `id` should be dropped, got {names:?}"
    );
    assert!(
        names.iter().any(|n| n.starts_with("id__")),
        "expected an `id__*` clone, got {names:?}"
    );
    assert!(names.contains(&"main".to_string()), "got {names:?}");
}

#[test]
fn two_instantiations_of_same_generic_fn() {
    let names = mono_names("fn id(x) { x }\nfn main() -> Int { id(1) + id(2) }");
    let id_clones = names.iter().filter(|n| n.starts_with("id__")).count();
    assert_eq!(id_clones, 1, "expected 1 shared clone, got {names:?}");
}

#[test]
fn specialized_clone_carries_concrete_types_throughout() {
    let fns = mono_fns("fn id(x) { x }\nfn main() -> Int { id(42) }");
    let clone = fns.iter().find(|f| f.0.starts_with("id__")).expect("id clone");
    assert_eq!(clone.1, "(Int) -> Int", "the clone's function type must be concrete");
    assert_eq!(clone.2, "Int", "the cloned parameter must use the specialization");
    assert_eq!(clone.3, "Int", "the cloned body/result must use the specialization");
}

#[test]
fn zero_argument_generic_result_is_specialized_from_use_context() {
    let names = mono_names(
        "fn empty() { Vec() }\n\
         fn main() -> Int { var values = empty(); values.push(1); values.len() }",
    );
    assert!(
        names.iter().any(|n| n.starts_with("empty__")),
        "expected a specialized zero-arg clone, got {names:?}"
    );
}

#[test]
fn two_instantiations_of_one_generic_are_two_concrete_functions() {
    let mut shapes: Vec<String> = mono_fns(
        "fn id(x) { x }\n\
         fn main() -> Unit { out(id(1)); out(id(\"t\")) }",
    )
    .into_iter()
    .filter(|f| f.0.starts_with("id__"))
    .map(|f| f.1)
    .collect();
    shapes.sort();
    assert_eq!(
        shapes,
        vec!["(Int) -> Int".to_string(), "(Text) -> Text".to_string()],
        "each clone's own type must be the one its call site chose"
    );
}

#[test]
fn a_zero_argument_generic_is_specialized_per_result_type() {
    let names = mono_names(
        "fn empty() { Vec() }\n\
         fn main() -> Int {\n\
           var ints = empty(); ints.push(1)\n\
           var texts = empty(); texts.push(\"t\")\n\
           ints.len() + texts.len()\n\
         }",
    );
    let clones: Vec<&String> = names.iter().filter(|n| n.starts_with("empty__")).collect();
    assert_eq!(
        clones.len(),
        2,
        "`Vec[Int]` and `Vec[Text]` are two instantiations: {names:?}"
    );
    assert!(
        !names.contains(&"empty".to_string()),
        "the generic original is dropped: {names:?}"
    );
}

#[test]
fn enum_payload_types_participate_in_monomorphization_cache_key() {
    let names = mono_names(
        "fn id(x) { x }\n\
         fn main() -> Unit { out(id(Some(1))); out(id(Some(\"text\"))) }",
    );
    let id_clones = names.iter().filter(|n| n.starts_with("id__")).count();
    assert_eq!(
        id_clones, 2,
        "Option payload types are distinct concrete instantiations: {names:?}"
    );
}

// ---------------------------------------------------------------------------
// More programs
// ---------------------------------------------------------------------------

/// The codes a program is reported with, each once, in order.
fn codes(text: &str) -> Vec<String> {
    let mut out: Vec<String> = analyze_and_lower_diags(text).iter().map(code_of).collect();
    out.dedup();
    out
}

#[test]
fn each_mistake_has_its_code() {
    for (src, code) in [
        ("out(nope)", "N001"),
        ("var x: Nope = 1", "N002"),
        ("var v = 1\nvar x: v = 1", "N003"),
        ("fn f() -> Int { 1 }\nfn f() -> Int { 2 }", "N004"),
        ("struct P { x: Int }\nstruct P { y: Int }", "N004"),
        ("fn f() -> Int { fn g() -> Int { 1 }\n 2 }", "N005"),
        ("struct Node { next: Option[Node] }", "N006"),
        ("var n = 1\nvar p = n { x: 1 }", "N008"),
        ("let x = 1", "N009"),
        ("var x: Int = true", "Y001"),
        ("fn f(x: Int) -> Int { x }\nout(f == f)", "Y004"),
        ("for i in 3 { out(i) }", "Y005"),
        ("out(true < false)", "Y006"),
        ("var m: Map[Int] = Map()", "Y007"),
        ("enum E { A, A }", "Y008"),
        ("var b = true\nb += false", "Y010"),
        ("return 1", "Y011"),
        ("break", "Y012"),
        ("continue", "Y012"),
        ("out(99999999999999999999)", "Y013"),
        ("var v = Vec()\nv.push(1)\nvar m = Map()\nm.insert(v, 1)", "Y014"),
        ("fn g(a) -> Unit { var b = a\n b += a }\ng(true)", "Y015"),
        ("out(\"a\" * \"b\")", "Y016"),
        ("while true { break 1 }", "Y017"),
        ("fn id(x) { x }\nvar f = id", "Y018"),
        ("out((1, 2).2)", "Y019"),
        ("out(true[0])", "Y020"),
        ("fn f() -> Int { 1 }\nf() = 2", "Y021"),
        ("var f = Vec", "Y022"),
        ("var t = `x`", "Y023"),
        ("fn f() -> Int { 1 }\nout(f(1))", "Y024"),
        ("var n = 1\nout((n)(1))", "Y025"),
        ("out(1.nope())", "Y110"),
        ("struct P { x: Int }\nvar p = P { x: 1 }\nout(p.y)", "Y112"),
        ("struct P { x: Int }\nvar p = P { }", "Y113"),
        ("struct P { x: Int }\nvar p = P { x: 1, y: 2 }", "Y114"),
        ("struct P { x: Int }\nvar p = P { x: 1, x: 2 }", "Y115"),
        ("enum E { A, B }\nvar e = A\nmatch e { A => 1 }", "Y120"),
        ("match true { _ => 1, true => 2 }", "Y121"),
        ("enum E { A }\nvar e = A\nmatch e { Z(n) => 1, _ => 2 }", "Y122"),
        ("match 1 { Some(n) => 1, _ => 2 }", "Y123"),
        ("enum E { A(Int) }\nvar e = A(1)\nmatch e { A(x, y) => 1 }", "Y124"),
        ("var v = [(1, 2)]\nfor (1, b) in v { out(b) }", "Y125"),
        ("var v = read nope", "I010"),
        ("var v = read frobnicate(int)", "I013"),
        ("var v = read lines(int, int)", "I020"),
    ] {
        assert!(codes(src).contains(&code.to_string()), "{src}: {:?}", codes(src));
    }
}

#[test]
fn a_name_is_the_innermost_one_in_scope() {
    assert_eq!(scheme_of("var a = 1\nvar b = { var a = \"x\"\n a }", "b").as_deref(), Some("Text"));
    assert_eq!(
        scheme_of("var a = 1\nvar b = { var a = \"x\"\n a }\nvar c = a", "c").as_deref(),
        Some("Int")
    );
    assert!(has_name_error("{ var inner = 1\n out(inner) }\nout(inner)"));
    assert!(has_name_error("var f = |x| x\nout(x)"));
}

#[test]
fn what_never_returns_agrees_with_anything() {
    assert!(!has_type_error("fn f(c: Bool) -> Int { if c { panic(\"no\") } else { 1 } }"));
    assert!(!has_type_error("fn f() -> Int { loop { } }"));
    assert!(!has_type_error("fn f(c: Bool) -> Text { if c { return \"a\" }\n panic(1) }"));
    assert_eq!(scheme_of("fn f() -> Never { panic(1) }", "f").as_deref(), Some("() -> Never"));
}

#[test]
fn a_generic_function_is_used_at_many_types() {
    assert_eq!(scheme_of("fn id(x) { x }", "id").as_deref(), Some("forall T. (T) -> T"));
    assert_eq!(
        scheme_of("fn pair(a, b) { (a, b) }", "pair").as_deref(),
        Some("forall T U. (T, U) -> (T, U)")
    );
    assert!(is_clean_with_lower("fn id(x) { x }\nout(id(1) + 1)\nout(id(\"a\") + \"b\")"));
    assert!(has_type_error("fn id(x) { x }\nout(id(1) + \"b\")"));
}

#[test]
fn what_a_call_asks_of_an_unknown_receiver_waits_for_it() {
    assert_eq!(
        scheme_of("fn n(v) { v.len() }\nout(n([1]))", "n").as_deref(),
        Some("(Vec[Int]) -> Int")
    );
    assert_eq!(
        scheme_of("struct P { x: Int }\nfn x(p) { p.x }\nout(x(P { x: 1 }))", "x").as_deref(),
        Some("(P) -> Int")
    );
    assert_eq!(
        scheme_of("fn at(v, i) { v[i] }\nout(at([true], 0))", "at").as_deref(),
        Some("(Vec[Bool], Int) -> Bool")
    );
    assert!(has_type_error("fn n(v) { v.len() }\nout(n(1))"));
}

#[test]
fn a_report_points_at_what_is_wrong() {
    let src = "fn f(a: Int) -> Int { a }\nout(f(\"x\"))";
    assert_eq!(first_mismatch_span(src), Some(span_of(src, "\"x\"")));
    let src = "var n = 1\nn += true";
    assert_eq!(first_mismatch_span(src), Some(span_of(src, "true")));
    let src = "fn f() -> Int { var x = 1\n \"tail\" }";
    assert_eq!(first_mismatch_span(src), Some(span_of(src, "\"tail\"")));
}

#[test]
fn something_that_is_no_file_is_the_one_report() {
    let analysis = analyze_root(FileId(7), &None, prelude());
    assert_eq!(analysis.diagnostics.len(), 1);
    assert_eq!(code_of(&analysis.diagnostics[0]), "Y098");
    assert_eq!(analysis.diagnostics[0].primary.file, FileId(7));
    assert!(!analysis.is_clean());
    assert!(analysis.names.is_empty());
}

#[test]
fn copies_are_named_after_their_types() {
    let names = mono_names("fn id(x) { x }\nfn main() -> Unit { out(id(1)); out(id([true])) }");
    assert_eq!(names, ["main", "id__Int", "id__Vec_Bool_"]);
    let names = mono_names("fn two(a, b) { a }\nfn main() -> Int { two(1, \"x\") }");
    assert_eq!(names, ["main", "two__Int_Text"]);
}

#[test]
fn a_copy_calls_copies() {
    let names = mono_names(
        "fn id(x) { x }\nfn twice(x) { id(id(x)) }\nfn main() -> Int { twice(1) }",
    );
    assert_eq!(names, ["main", "id__Int", "twice__Int"]);
}

#[test]
fn a_program_without_generics_keeps_its_functions() {
    let src = "fn a() -> Int { b() }\nfn b() -> Int { 1 }\nout(a())";
    assert_eq!(mono_names(src), ["a", "b", "<entry>"]);
}

#[test]
fn top_level_statements_become_the_last_function() {
    let (_, module) = analyze_and_lower("var x = 1\nfn f() -> Int { 2 }\nout(x)");
    let names: Vec<&str> = module
        .items
        .iter()
        .map(|i| match i {
            TypedItem::Fn(f) => f.name.as_str(),
        })
        .collect();
    assert_eq!(names, ["f", ENTRY_NAME]);
    assert_eq!(entry_point(|n| names.contains(&n)), Some(ENTRY_NAME));
    assert_eq!(entry_point(|n| n == "main"), Some("main"));
    assert_eq!(entry_point(|_| false), None);
}

/// The body of the first function of a program.
fn first_body(module: &TypedModule) -> &TypedBlock {
    match &module.items[0] {
        TypedItem::Fn(f) => &f.body,
    }
}

#[test]
fn a_record_literals_fields_are_lowered_in_declaration_order() {
    let (_, module) =
        analyze_and_lower("struct P { x: Int, y: Int }\nfn f() -> P { P { y: 2, x: 1 } }");
    match &first_body(&module).tail {
        TypedExpr::RecordLit { fields, .. } => {
            assert_eq!(fields.iter().map(|f| f.index).collect::<Vec<_>>(), [0, 1]);
            let firsts: Vec<(u32, u32)> = fields.iter().map(|f| expr_span(&f.init)).collect();
            assert!(firsts[0].0 > firsts[1].0, "written the other way round");
        }
        other => panic!("{other:?}"),
    }
}

#[test]
fn a_closure_shares_a_cell_only_for_what_is_reassigned() {
    let src = "fn f() -> Int { var a = 1\n var b = 2\n var g = |n| { a = n\n b }\n g(3) }";
    let (analysis, module) = analyze_and_lower(src);
    let block = first_body(&module);
    let TypedStmt::Var { init, .. } = &block.stmts[2] else { panic!("{block:?}") };
    let TypedExpr::Closure { captures, .. } = init else { panic!("{init:?}") };
    let kinds: Vec<(String, CaptureKind)> =
        captures.iter().map(|c| (c.name.clone(), c.kind)).collect();
    assert!(kinds.contains(&("a".to_string(), CaptureKind::ByCell)));
    assert!(kinds.contains(&("b".to_string(), CaptureKind::ByValue)));
    let escaping: Vec<&str> = module
        .escaping_vars
        .iter()
        .map(|id| analysis.names.get(*id).unwrap().name.as_str())
        .collect();
    assert_eq!(escaping, ["a"]);
}

#[test]
fn the_parts_of_an_expression_are_all_reached() {
    let (_, module) = analyze_and_lower("fn f(c: Bool) -> Int { if c { 1 } else { 2 } }");
    let tail = &first_body(&module).tail;
    assert_eq!(tail.children().len(), 1);
    assert_eq!(tail.blocks().len(), 2);
    let (_, module) = analyze_and_lower("fn f() -> Int { var v = [1]\n v[0] = 2\n v[0] }");
    let block = first_body(&module);
    assert_eq!(stmt_exprs(&block.stmts[0]).len(), 1);
    assert_eq!(stmt_exprs(&block.stmts[1]).len(), 3);
    assert!(stmt_span(&block.stmts[1]).0 < stmt_span(&block.stmts[1]).1);
    assert!(expr_ty(&block.tail).same(&Type::Scalar(ScalarType::Int)));
}

#[test]
fn a_misspelled_parser_is_offered_the_right_one() {
    let src = "var v = read lines(itt)";
    let diags = analyze(src).diagnostics;
    assert_eq!(diags[0].message, "unknown atomic parser `itt`");
    assert_eq!(diags[0].primary.span.to_pair(), span_of(src, "itt"));
    assert_eq!(diags[0].suggestions[0].replacement.as_deref(), Some("int"));
    assert_eq!(diags[0].suggestions[0].message, "did you mean `int`?");
}

#[test]
fn the_expressions_of_a_statement_can_be_replaced() {
    let (_, mut module) = analyze_and_lower("fn f() -> Int { var v = [1]\n v[0] = 2\n v[0] }");
    let TypedItem::Fn(f) = &mut module.items[0];
    let unit = || TypedExpr::Lit { value: Lit::Unit, ty: Type::Unit, span: (7, 8) };
    {
        let parts = stmt_exprs_mut(&mut f.body.stmts[1]);
        assert_eq!(parts.len(), 3);
        for part in parts {
            *part = unit();
        }
    }
    assert!(stmt_exprs(&f.body.stmts[1]).iter().all(|e| expr_span(e) == (7, 8)));
    assert!(matches!(&f.body.stmts[1], TypedStmt::IndexAssign { indices, .. } if indices.len() == 1));
    assert_ne!(expr_span(stmt_exprs(&f.body.stmts[0])[0]), (7, 8));
}

#[test]
fn a_pattern_has_a_part_for_every_component() {
    let (_, module) = analyze_and_lower(
        "struct P { x: Int, y: Int }\nfn f(p: P) -> Int { match p { P { y } => y } }",
    );
    let TypedExpr::Match { arms, .. } = &first_body(&module).tail else {
        panic!("{:?}", first_body(&module).tail)
    };
    let parts = arms[0].pattern.sub_patterns();
    assert_eq!(parts.len(), 2);
    assert!(matches!(&parts[0], TypedPattern::Wildcard));
    assert!(matches!(&parts[1], TypedPattern::Bind { name, .. } if name == "y"));
}

#[test]
fn a_position_in_a_parser_expression_finds_what_is_there() {
    let src = "var v = read lines(`{a:int} {word}`)\n";
    let analysis = analyze(src);
    let index = &analysis.parser_exprs[0];
    let capture = index.capture_at(at(src, "a:int")).expect("inside a capture");
    assert_eq!(text_at(src, capture.span), "{a:int}");
    assert!(index.capture_at(at(src, "lines")).is_none());
    let atoms: Vec<&str> = index.atomics().iter().map(|(s, _)| text_at(src, *s)).collect();
    assert_eq!(atoms, ["int", "word"]);
    let word = Span::new(at(src, "word"), at(src, "word") + 4);
    assert_eq!(analysis.db.render(&index.type_of_span(word).unwrap()), "Text");
    assert!(index.type_of_span(Span::new(0, 1)).is_none());
    assert_eq!(index.mode_at(0), ParserMode::Outside);
    assert!(index.type_at(0).is_none());
}

#[test]
fn every_expression_is_given_a_type() {
    let src = "struct R { f: Int }\nenum E { V(Int) }\n\
               fn g(c: Bool, v: Vec[Int]) -> Int {\n\
                 var a = |n| n + 1\n var t = (a(1), [2, 3], \"x{a(4)}\")\n\
                 if c { return v[0] }\n\
                 for x in v { out(-x) }\n\
                 while !c { break }\n\
                 match V(R { f: 5 }.f) { V(n) => n + t.0 }\n}\n\
               out(g(true, [1]))";
    let p = program(src);
    let analysis = analyze_root(FileId(0), &Some(p.file), p.prelude);
    let file = program(src).file;
    let mut seen = 0;
    for node in descendants(&file) {
        if let Seen::Expr(e) = node {
            seen += 1;
            assert!(analysis.expr_types.get(e.key()).is_some(), "{:?}", e.range);
        }
    }
    assert!(seen > 40, "{seen}");
}

/// The message of the first report with a code.
fn message_with(text: &str, code: &str) -> String {
    let all = analyze_and_lower_diags(text);
    let found = all.iter().find(|d| code_of(d) == code);
    found.map(|d| d.message.clone()).unwrap_or_default()
}

#[test]
fn a_gap_is_named_by_its_shape() {
    let given = "enum E { A, B(Int, Bool) }\nvar e = A\nvar t = (true, 1)\n";
    let named = |arms: &str| message_with(&format!("{given}var r = match {arms}"), "Y120");
    assert_eq!(named("true { true => 1 }"), "this `match` does not cover `false`");
    assert_eq!(named("1 { 1 => 1 }"), "this `match` needs a catch-all arm: `_`");
    assert_eq!(named("e { A => 1 }"), "this `match` does not cover `B(_, _)`");
    assert_eq!(named("e { A => 1, B(_, true) => 2 }"), "this `match` does not cover `B(_, false)`");
    assert_eq!(named("t { (false, _) => 1 }"), "this `match` does not cover `(true, _)`");
    assert_eq!(named("e { A => 1, B(1, _) => 2 }"), "this `match` does not cover `B(_, _)`");
    assert_eq!(named("e { A => 1, B(_, _) => 2 }"), "");
}

#[test]
fn a_declaration_cycle_names_another_member() {
    let pair = "struct A { b: B }\nenum B { Nothing, Some2(A) }";
    let all = analyze_and_lower_diags(pair);
    let messages: Vec<String> = all.iter().map(|d| d.message.clone()).collect();
    assert_eq!(
        messages,
        vec!["`A` refers to itself, through `B`", "`B` refers to itself, through `A`"]
    );
    assert_eq!(message_with("struct A { a: Vec[A] }", "N006"), "`A` refers to itself");
}

#[test]
fn lowering_reports_no_missing_type() {
    for src in [
        "var x = 1\nx += 2\nout(x)",
        "fn f(n: Int) -> Int { if n > 0 { f(n - 1) } else { 0 } }\nout(f(3))",
        "var v = [1, 2]\nfor i in v { out(i * 2) }\nout(v.map(|x| x + 1))",
        "struct P { x: Int }\nvar p = P { x: 1 }\np.x = 2\nout(match p { P { x } => x })",
        "out(nope)\nvar y: Nope = missing.field[0]",
    ] {
        assert!(!codes(src).iter().any(|c| c == "Y099"), "{src}: {:?}", codes(src));
    }
}

// ---------------------------------------------------------------------------
// What analysis records, place by place
// ---------------------------------------------------------------------------

const EVERY_EXPRESSION_POSITION: &str = "struct R { f: Int }
enum E { V(Int) }
fn main(c: Bool, v: Vec[Int], k: Int) -> Int {
  var a = |n| 1
  var b = |n| 2
  b = |n| 3
  var d = (|n| 4)(0)
  out(|n| 5)
  var w = v.map(|n| 6)
  var y = v.map(|n| 7).len()
  var t = (|n| 8, |n| 9)
  var p = (|n| 10)
  var u = !(|n| 11)
  var z = (|n| 12) == (|n| 13)
  var g = R { f: |n| 14 }.f
  var e = V(|n| 15)
  if (|n| 16)(0) { var h = |n| 17 } else { var i = |n| 18 }
  while c { var j = |n| 19 }
  for x in v { var l = |n| 20 }
  var m = loop { var o = |n| 21
  break |n| 22 }
  var q = match (|n| 23)(0) { _ => |n| 24 }
  return |n| 25
}
";

#[test]
fn every_expression_node_has_a_recorded_type() {
    let p = program(EVERY_EXPRESSION_POSITION);
    assert!(p.errors.is_empty(), "{:?}", p.errors);
    let analysis = analyze_root(FileId(0), &Some(p.file), p.prelude);
    let file = program(EVERY_EXPRESSION_POSITION).file;
    let mut missing = Vec::new();
    let mut seen = 0usize;
    for node in descendants(&file) {
        if let Seen::Expr(e) = node {
            seen += 1;
            if analysis.expr_types.get(e.key()).is_none() {
                missing.push(format!("{:?}", e.range));
            }
        }
    }
    assert!(seen > 60, "the fixture should have many expressions: {seen}");
    assert!(missing.is_empty(), "expressions without a recorded type: {missing:?}");
}

#[test]
fn lowering_invents_no_type_for_any_expression_position() {
    let (_, module) = analyze_and_lower(EVERY_EXPRESSION_POSITION);
    let invented: Vec<_> =
        module.diagnostics.iter().filter(|d| d.code == DiagCode::InternalMissingType).collect();
    assert!(invented.is_empty(), "lowering asked for a type never recorded: {invented:?}");
}

#[test]
fn a_node_key_separates_an_expression_from_the_name_inside_it() {
    let src = "fn main() -> Int { var x = 1\n  x }\n";
    let analysis = analyze(src);
    let file = program(src).file;
    let mut found = 0;
    for node in descendants(&file) {
        let Seen::Expr(e) = node else { continue };
        let ExprKind::Path(Some(name)) = &e.kind else { continue };
        found += 1;
        assert_eq!(e.range, name.range);
        assert!(analysis.ref_types.get(name.range).is_some());
        assert!(analysis.expr_types.get(e.key()).is_some());
        let other = NodeKey::of(e.range, SyntaxKind::BlockExpr);
        assert_ne!(e.key(), other);
        assert!(analysis.expr_types.get(other).is_none());
    }
    assert_eq!(found, 1, "the `x` reference");
}

/// The name of the catalog row a reference resolved to.
fn row_name(entry: &MethodEntry) -> String {
    let MethodLowering::RuntimeSymbol(RuntimeSymbol(i)) = entry.lowering else {
        panic!("a routine");
    };
    method_rows(&mut TypeDb::new())[i as usize].name.clone()
}

#[test]
fn a_method_name_is_not_a_name_reference() {
    let src = "fn main(v: Vec[Int]) -> Int { v.len() }\n";
    let analysis = analyze(src);
    let start = src.find("len").unwrap() as u32;
    let range = Span::new(start, start + 3);
    assert!(
        analysis.refs.get(range).is_none(),
        "a method resolves to a catalog entry, not a symbol"
    );
    let m = analysis.method_refs.get(range).expect("the method's own map is where it lives");
    assert_eq!(row_name(&m.entry), "len");
    assert_eq!(analysis.db.render(&analysis.db.deep_resolve(&m.receiver)), "Vec[Int]");
    assert_eq!(analysis.db.render(&analysis.db.deep_resolve(&m.result)), "Int");
}

/// The catalog rows inference selected, by method name, sorted.
fn resolved_method_rows(text: &str) -> Vec<String> {
    let analysis = analyze(text);
    let file = program(text).file;
    let mut names = Vec::new();
    for node in descendants(&file) {
        let Seen::Expr(e) = node else { continue };
        let at = match &e.kind {
            ExprKind::MethodCall { name: Some(n), .. } => n.range,
            ExprKind::Index { .. } => e.range,
            _ => continue,
        };
        if let Some(m) = analysis.method_refs.get(at) {
            names.push(row_name(&m.entry));
        }
    }
    names.sort();
    names
}

#[test]
fn a_method_on_a_derived_receiver_resolves_like_one_on_the_parameter() {
    let pick = "fn pick(t, i, j) { t[i][j] }\n\
                out(pick([[7, 8]], 0, 0))";
    assert_eq!(scheme_of(pick, "pick").as_deref(), Some("(Vec[Vec[Int]], Int, Int) -> Int"));
    assert_eq!(
        resolved_method_rows(pick),
        vec!["[]".to_string(), "[]".to_string()],
        "both subscripts must carry a catalog row, not just the first"
    );
    for (src, rows) in [
        ("fn f(v) { v.len() }\nout(f([1, 2, 3]))", vec!["len"]),
        ("fn f(v) { v[0] }\nout(f([1, 2, 3]))", vec!["[]"]),
        ("fn f(v) { v[0][1] }\nout(f([[1, 2, 3]]))", vec!["[]", "[]"]),
        ("fn f(v) { v[0].len() }\nout(f([[1, 2, 3]]))", vec!["[]", "len"]),
        ("fn f(v) { v.get(0).len() }\nout(f([[1, 2, 3]]))", vec!["get", "len"]),
        (
            "fn f(v) -> Unit { for row in v { out(row.len()) } }\n\
             f([[1, 2, 3], [4, 5]])",
            vec!["len"],
        ),
        (
            "fn pick(t, i, j) { var row = t[i]\n row[j] }\n\
             out(pick([[7, 8]], 0, 0))",
            vec!["[]", "[]"],
        ),
    ] {
        assert!(
            !has_type_error_with_lower(src),
            "a well-typed derived receiver must not be a diagnostic: {src:?}"
        );
        assert_eq!(
            resolved_method_rows(src),
            rows.iter().map(|s| (*s).to_string()).collect::<Vec<_>>(),
            "every call site must carry the row lowering reads: {src:?}"
        );
    }
}

#[test]
fn a_chain_of_deferred_receivers_resolves_to_a_fixpoint_not_one_link() {
    let three = "fn f(v) { v[0][0].len() }\n\
                 fn g() -> Int { f([[[1, 2, 3]]]) }\n\
                 out(g())";
    assert_eq!(scheme_of(three, "f").as_deref(), Some("(Vec[Vec[Vec[Int]]]) -> Int"));
    assert_eq!(
        resolved_method_rows(three),
        vec!["[]".to_string(), "[]".to_string(), "len".to_string()]
    );
    let five = "fn f(v) { v[0][0][0][0].len() }\n\
                out(f([[[[[1, 2, 3]]]]]))";
    assert!(!has_type_error_with_lower(five));
    assert_eq!(resolved_method_rows(five).len(), 5);
}

#[test]
fn a_wildcard_binder_is_legal_and_declares_nothing() {
    for src in [
        "fn main() -> Int { var _ = 1; 0 }",
        "fn g(_) -> Int { 0 }\nfn main() -> Int { g(1) }",
        "fn main() -> Int { var f = |_| 0; f(1) }",
    ] {
        assert!(is_clean_with_lower(src), "`{src}` should compile clean");
        let analysis = analyze(src);
        let anonymous: Vec<SymbolId> =
            analysis.names.all().iter().filter(|s| s.name == "_").map(|s| s.id).collect();
        let file = program(src).file;
        for node in descendants(&file) {
            let at = match node {
                Seen::Target(n) => n.range,
                Seen::Expr(e) => match &e.kind {
                    ExprKind::Path(Some(n)) => n.range,
                    ExprKind::Call { callee: Some(n), .. } => n.range,
                    _ => continue,
                },
            };
            let read = analysis.refs.get(at).map(|r| r.symbol);
            assert!(
                !read.is_some_and(|s| anonymous.contains(&s)),
                "`{src}`: nothing may read a `_`"
            );
        }
    }
}

/// The tree the first parser expression of a program was kept as.
fn parser_ast_of(text: &str) -> ParserAst {
    analyze(text).parser_exprs.remove(0).ast
}

#[test]
fn a_field_named_fill_or_skip_is_a_field_and_not_a_dropped_keyword() {
    let src = "var v = read sections(rules: lines(int), fill: lines(int))";
    assert!(!has_input_error(src), "`fill` is a section name here");
    assert_eq!(
        scheme_of(src, "v").as_deref(),
        Some("{ rules: Vec[Int], fill: Vec[Int] }"),
        "the `fill` field must be in the record"
    );
    let src = "var v = read block(`{id:int}`, fill: lines(int))";
    assert!(!has_input_error(src));
    match parser_ast_of(src) {
        ParserAst::Block { items, .. } => {
            assert_eq!(items.len(), 2, "the `fill` item must survive");
            assert!(matches!(&items[1], BlockItem::Named { name, .. } if name == "fill"));
        }
        other => panic!("expected Block, got {other:?}"),
    }
    match parser_ast_of("var v = read choice(A: int, skip: word)") {
        ParserAst::Choice { cases, .. } => {
            assert_eq!(cases.len(), 2, "the `skip` case must survive");
            assert_eq!(cases[1].name, "skip");
        }
        other => panic!("expected Choice, got {other:?}"),
    }
    match parser_ast_of(r#"var v = read chars(one_of("ab"), skip: newlines)"#) {
        ParserAst::Characters { skip, .. } => {
            assert_eq!(skip.as_deref(), Some("newlines"));
        }
        other => panic!("expected Characters, got {other:?}"),
    }
    assert!(
        has_input_error(r#"var v = read chars(one_of("ab"), fill: 0)"#),
        "`chars` has no `fill:`"
    );
}

// ---------------------------------------------------------------------------
// Updates, scopes, order and calls
// ---------------------------------------------------------------------------

#[test]
fn an_update_is_not_a_plain_store() {
    let field = "struct P { x: Int }\nvar p = P { x: 1 }\n";
    assert_eq!(codes(&format!("{field}p.x min= 3")), ["Y016"]);
    assert_eq!(codes(&format!("{field}p.x max= 3")), ["Y016"]);
    assert_eq!(codes("var v = [1]\nv[0] max= 3"), ["Y020"]);
    assert_eq!(
        message_with("var v = [1]\nv[0] max= 3", "Y020"),
        "`Vec[Int]` has no `max=` through a subscript"
    );
    let stored = |op: &str| {
        let src = format!("var d = Map()\nd[\"a\"] {op} 3");
        let (analysis, module) = analyze_and_lower(&src);
        assert!(analysis.diagnostics.is_empty(), "{:?}", analysis.diagnostics);
        let body = first_body(&module);
        let TypedStmt::IndexAssign { set, .. } = &body.stmts[1] else {
            panic!("a store");
        };
        *set
    };
    assert_ne!(stored("min="), stored("="));
    assert_ne!(stored("max="), stored("="));
    assert_ne!(stored("max="), stored("min="));
}

#[test]
fn a_reference_stands_in_its_scope() {
    let src = "var a = 1\nfn f(p: Int) -> Int { { p } + p }\nout(a)";
    let analysis = analyze(src);
    assert!(analysis.diagnostics.is_empty(), "{:?}", analysis.diagnostics);
    let scope_at = |at: usize| {
        analysis.refs.get(Span::new(at as u32, at as u32 + 1)).expect("a reference").scope
    };
    let root = analysis.scopes.root();
    let outer = scope_at(src.find("a)").unwrap());
    assert_eq!(outer, root);
    let inner = scope_at(src.find("p }").unwrap());
    let after = scope_at(src.rfind("p }").unwrap());
    assert_ne!(inner, after);
    assert_eq!(analysis.scopes.parent(inner), Some(after), "a block stands in its body");
    let function = analysis.scopes.parent(after).expect("the function's scope");
    assert_eq!(analysis.scopes.parent(function), Some(root));
    assert_eq!(analysis.scopes.parent(root), None);
    let names = |scope| -> Vec<String> {
        let symbols = analysis.scopes.symbols(scope);
        symbols.iter().map(|s| analysis.names.get(*s).unwrap().name.clone()).collect()
    };
    assert_eq!(names(function), ["p"]);
    assert!(names(root).contains(&"f".to_string()));
}

#[test]
fn reports_come_in_source_order() {
    let src = "for 1 in [1, 2] { out(3) }\nfn f() -> Int { true }\nvar x: Int = \"t\"\nout(nope)";
    let diags = analyze(src).diagnostics;
    assert_eq!(diags.iter().map(code_of).collect::<Vec<_>>(), ["Y125", "Y001", "Y001", "N001"]);
    assert!(diags.windows(2).all(|d| d[0].primary.span.start <= d[1].primary.span.start));
}

#[test]
fn parser_trees_are_kept_as_inference_comes_by_them() {
    let src = "var a = read lines(int)\nfn f() { read csv(word) }\nvar b = read intr";
    let analysis = analyze(src);
    let kept: Vec<&str> = analysis
        .parser_exprs
        .iter()
        .map(|x| &src[x.expr_range.start as usize..x.expr_range.end as usize])
        .collect();
    assert_eq!(kept, ["csv(word)", "lines(int)"], "functions first, and nothing rejected");
}

#[test]
fn a_chain_of_generics_leaves_no_call_without_a_target() {
    let mut src = "fn f0(x) { x }\n".to_string();
    for i in 1..60 {
        src += &format!("fn f{i}(x) {{ f{}(x) }}\n", i - 1);
    }
    src += "out(f59(1))\nout(f59(true))";
    let (mut analysis, module) = analyze_and_lower(&src);
    assert!(analysis.diagnostics.is_empty(), "{:?}", analysis.diagnostics);
    let module = monomorphize(module, &analysis.names, &mut analysis.db);
    let names: Vec<(SymbolId, String)> = module
        .items
        .iter()
        .map(|i| match i {
            TypedItem::Fn(f) => (f.symbol, f.name.clone()),
        })
        .collect();
    assert_eq!(names.len(), 1 + 2 * 60, "what runs, and two copies of each");
    let mut calls = 0;
    for item in &module.items {
        let TypedItem::Fn(f) = item;
        if let TypedExpr::Call { callee, callee_name, .. } = &f.body.tail {
            calls += 1;
            assert!(names.contains(&(*callee, callee_name.clone())), "{callee_name}");
        }
    }
    assert_eq!(calls, 2 * 59);
}

#[test]
fn a_recursive_enum_is_reported_once() {
    let src = "enum List { Nil, Cons(Int, List) }\nvar l = Cons(1, 7)\nvar m = Cons(\"t\", Nil)";
    assert_eq!(codes(src), ["N006", "Y001"], "only what does not lead back is checked");
}

#[test]
fn a_function_calls_itself_through_others() {
    let src = "var k = 1\nfn a(n: Int) -> Int { b(n) + k }\nfn b(n: Int) -> Int { c(n) }\n\
               fn c(n: Int) -> Int { if n > 0 { a(n - 1) } else { 0 } }";
    let all = analyze_and_lower_diags(src);
    assert_eq!(all.len(), 1, "{all:?}");
    assert_eq!(
        all[0].suggestions[0].message,
        "`a` calls itself through `b`, so a closure is not the way out: a closure cannot name \
         itself (`N001`)"
    );
}

#[test]
fn a_declared_type_is_a_symbol() {
    let analysis = analyze("struct P { x: Int }\nenum E { A }");
    let kind = |n: &str| analysis.names.all().iter().find(|s| s.name == n).map(|s| s.kind);
    assert_eq!(kind("P"), Some(SymbolKind::Struct));
    assert_eq!(kind("E"), Some(SymbolKind::Enum));
    assert_eq!(kind("A"), Some(SymbolKind::EnumVariant));
}

#[test]
fn analyzing_nested_function_never_panics() {
    let analysis = analyze("fn main() -> Int { fn local(x: Int) -> Int { x }; local(1) }");
    assert!(analysis.names.all().iter().any(|s| s.name == "main"), "analysis came to its end");
}

// ---------------------------------------------------------------------------
// Lowering leaves the analysis alone
// ---------------------------------------------------------------------------

#[test]
fn lowering_adds_no_symbol() {
    let src = "fn f() -> Int { 1 }\nout(f())";
    let before = analyze(src).names.len();
    let (mut analysis, module) = analyze_and_lower(src);
    assert_eq!(analysis.names.len(), before);
    assert!(analysis.names.all().iter().all(|s| s.name != ENTRY_NAME));
    let entry = entry_fn(&module).symbol;
    assert_eq!(entry, SymbolId(before as u32));
    assert!(analysis.names.get(entry).is_none());
    let kept = monomorphize(module, &analysis.names, &mut analysis.db);
    assert_eq!(entry_fn(&kept).symbol, entry);
}

#[test]
fn a_copy_is_named_by_letters_and_digits() {
    let names = mono_names("fn empty() { Vec() }\nvar v = empty()\nv.push(1)");
    assert!(names.contains(&"empty__Vec_Int_".to_string()), "{names:?}");
}

#[test]
fn coverage_goes_by_the_type_that_is_matched() {
    let src = "var r = match 1 { true => 1, false => 2 }";
    let found = codes(src);
    assert!(found.contains(&"Y001".to_string()), "{found:?}");
    assert!(found.contains(&"Y120".to_string()), "no arm is for an `Int`: {found:?}");
    assert!(codes("var r = match (1, true) { (_, true) => 1, (_, false) => 2 }").is_empty());
}

#[test]
fn what_is_lowered_can_be_copied() {
    let src = "fn f(v: Vec[Int]) -> Int { var t = 0\nfor (a, b) in [(1, 2)] { t += a * b }\n\
               match t { 0 => v[0], n => v.map(|x| x + n).len() } }\nout(f([1]))";
    let (analysis, module) = analyze_and_lower(src);
    assert!(analysis.diagnostics.is_empty(), "{:?}", analysis.diagnostics);
    let copy = module.clone();
    assert_eq!(format!("{copy:?}"), format!("{module:?}"));
    assert_eq!(analysis.names.clone().len(), analysis.names.len());
    let kept = analyze("var a = read lines(`{x:int}, {int}`)").parser_exprs;
    assert_eq!(format!("{:?}", kept[0].clone()), format!("{:?}", kept[0]));
}
