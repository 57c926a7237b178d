//! Single parts of the library, on concrete values.
use praxis_hir::catalog::{pattern_to_type_named, TypePattern};
use praxis_hir::mono::{fresh_name, mangled_name, sanitized};
use praxis_hir::name_table::NameTable;
use praxis_hir::parser_ast::{AtomicKind, Constructor, ParserAst, RepeatedTail, TemplatePart};
use praxis_hir::parser_lower::{
    accept_valid, analyze_parser_expr, convert_parser_expr, convert_template, finish_call,
    repeated_call_args, synthesize_parser_type, template_interior, ArgNode, CallArg, CallNode,
    ConvertStep, Converted, Outcome, ParserNode, ScanError, TailResult, TemplateNode,
    ValidationError, ValueNode,
};
use praxis_hir::ast::PlanId;
use praxis_hir::source::{decimal, DiagCode, Diagnostic, FileId, FileSpan, Span};
use praxis_hir::symbol::{Symbol, SymbolId, SymbolKind};
use praxis_hir::tables::{NodeKey, NodeMap, SpanMap, SyntaxKind};
use praxis_hir::typedb::{Scheme, TypeDb};
use praxis_hir::types::{CollectionCtor, EnumDefId, ScalarType, Type, TypeList};

const FILE: FileId = FileId(3);

fn int_ty() -> Type {
    Type::Scalar(ScalarType::Int)
}

fn text_ty() -> Type {
    Type::Scalar(ScalarType::Text)
}

fn list(ts: Vec<Type>) -> TypeList {
    TypeList::from_vec(&ts)
}

fn vec_of(t: Type) -> Type {
    Type::Collection(CollectionCtor::Vec, list(vec![t]))
}

// ---------------------------------------------------------------------------
// Types
// ---------------------------------------------------------------------------

#[test]
fn unification_finds_the_common_type() {
    let mut db = TypeDb::new();
    let a = db.fresh_var();
    let b = db.fresh_var();
    let left = Type::Tuple(list(vec![a.dup(), vec_of(b.dup())]));
    let right = Type::Tuple(list(vec![int_ty(), a.dup()]));
    assert!(!db.unify(&left, &right), "an `Int` is no `Vec`");
    let right = Type::Tuple(list(vec![int_ty(), vec_of(text_ty())]));
    assert!(db.unify(&left, &right));
    assert!(db.deep_resolve(&a).same(&int_ty()));
    assert!(db.deep_resolve(&b).same(&text_ty()));
    assert_eq!(db.render(&left), "(Int, Vec[Text])");
}

#[test]
fn a_failed_unification_leaves_nothing_behind() {
    let mut db = TypeDb::new();
    let a = db.fresh_var();
    let left = Type::Tuple(list(vec![a.dup(), int_ty()]));
    let right = Type::Tuple(list(vec![text_ty(), text_ty()]));
    assert!(!db.unify(&left, &right));
    assert!(db.deep_resolve(&a).same(&a));
}

#[test]
fn a_type_does_not_hold_itself() {
    let mut db = TypeDb::new();
    let a = db.fresh_var();
    assert!(!db.unify(&a, &vec_of(a.dup())));
    assert!(db.unify(&a, &a));
}

#[test]
fn types_are_written_as_the_source_writes_them() {
    let mut db = TypeDb::new();
    let v = db.fresh_var();
    let f = Type::Func(list(vec![v.dup(), int_ty()]), Box::new(vec_of(v)));
    let scheme = Scheme { binders: vec![0], body: f, needs: Vec::new() };
    assert_eq!(db.render_scheme(&scheme), "forall T. (T, Int) -> Vec[T]");
    let m = Type::Collection(CollectionCtor::MapOf, list(vec![text_ty(), int_ty()]));
    assert_eq!(db.render(&m), "Map[Text, Int]");
    assert_eq!(db.render(&Type::Collection(CollectionCtor::Range, TypeList::Nil)), "Range");
}

#[test]
fn a_name_of_a_row_stands_for_one_type() {
    let mut db = TypeDb::new();
    let mut names = Vec::new();
    let t = TypePattern::Var("T".to_string());
    let row = TypePattern::Function(
        vec![TypePattern::Collection(CollectionCtor::Vec, vec![t])],
        Box::new(TypePattern::Option(Box::new(TypePattern::Var("T".to_string())))),
    );
    let ty = pattern_to_type_named(&mut db, &row, EnumDefId(0), &mut names);
    let expected = Type::Func(
        list(vec![vec_of(Type::Var(0))]),
        Box::new(Type::Enum(EnumDefId(0), list(vec![Type::Var(0)]))),
    );
    assert!(ty.same(&expected));
    assert_eq!(names.len(), 1);
    let again = pattern_to_type_named(&mut db, &row, EnumDefId(0), &mut Vec::new());
    assert!(!again.same(&ty), "another call site chooses for itself");
}

// ---------------------------------------------------------------------------
// Tables
// ---------------------------------------------------------------------------

#[test]
fn a_key_is_a_range_and_a_kind() {
    let range = Span::new(2, 5);
    let key = NodeKey::of(range, SyntaxKind::PathExpr);
    assert_eq!(key.range(), range);
    assert_eq!(key.kind(), SyntaxKind::PathExpr);
    let mut map = NodeMap::new();
    map.insert(key, 1);
    map.insert(NodeKey::of(range, SyntaxKind::ParenExpr), 2);
    assert_eq!(map.get(key), Some(&1));
    assert_eq!(map.get(NodeKey::of(range, SyntaxKind::ParenExpr)), Some(&2));
    assert_eq!(map.get(NodeKey::of(Span::new(2, 6), SyntaxKind::PathExpr)), None);
}

#[test]
fn a_later_entry_replaces_an_earlier_one() {
    let mut map = SpanMap::new();
    map.insert(Span::new(0, 4294967295), "a");
    map.insert(Span::new(4294967295, 0), "b");
    map.insert(Span::new(0, 4294967295), "c");
    assert_eq!(map.get(Span::new(0, 4294967295)), Some(&"c"));
    assert_eq!(map.get(Span::new(4294967295, 0)), Some(&"b"));
    assert_eq!(map.get(Span::new(0, 0)), None);
}

#[test]
fn numbers_are_written_in_decimal() {
    for n in [0, 7, 10, 99, 4096, u64::MAX] {
        assert_eq!(decimal(n), n.to_string());
    }
}

// ---------------------------------------------------------------------------
// Names of copies
// ---------------------------------------------------------------------------

#[test]
fn a_copys_name_has_only_letters_numbers_and_underscores() {
    assert_eq!(sanitized("Vec[Int]"), "Vec_Int_");
    assert_eq!(sanitized("(Int, Text)"), "_Int__Text_");
    assert_eq!(sanitized("été_9"), "été_9");
    assert_eq!(sanitized(""), "");
}

#[test]
fn a_copy_is_named_after_its_function() {
    let mut names = NameTable::default();
    let id = names.insert(Symbol {
        id: SymbolId(0),
        name: "id".to_string(),
        kind: SymbolKind::Fn,
        decl: None,
        reassigned: false,
        scheme: None,
    });
    let parts = vec!["Int".to_string(), "Vec[T]".to_string()];
    assert_eq!(mangled_name(&names, id, &parts), "id__Int_Vec_T_");
    assert_eq!(mangled_name(&names, id, &Vec::new()), "id__mono");
    assert_eq!(mangled_name(&names, SymbolId(9), &vec!["Int".to_string()]), "fn9__Int");
}

#[test]
fn a_name_that_is_taken_is_numbered() {
    let base = "f__Int".to_string();
    let taken = |names: &[&str]| names.iter().map(|n| n.to_string()).collect::<Vec<_>>();
    assert_eq!(fresh_name(&base, &taken(&[])), "f__Int");
    assert_eq!(fresh_name(&base, &taken(&["f__Int"])), "f__Int__1");
    assert_eq!(fresh_name(&base, &taken(&["f__Int__1", "f__Int"])), "f__Int__2");
    assert_eq!(fresh_name(&base, &taken(&["f__Int__1", "g"])), "f__Int");
}

// ---------------------------------------------------------------------------
// Parser expressions
// ---------------------------------------------------------------------------

fn span() -> Span {
    Span::new(10, 20)
}

fn atom(at: u32) -> ParserAst {
    ParserAst::Atomic { kind: AtomicKind(1), span: Span::new(at, at + 3) }
}

fn converted() -> Converted {
    Converted { ast: Some(atom(1)), reports: Vec::new() }
}

fn unconverted() -> Converted {
    Converted { ast: None, reports: Vec::new() }
}

fn expr_arg(text: Option<&str>, names_parser: bool, converted: Converted) -> ArgNode {
    ArgNode::Expr { range: span(), text: text.map(String::from), names_parser, converted }
}

fn named_arg(name: &str, literal: Option<&str>, value: Option<ValueNode>) -> ArgNode {
    ArgNode::Named {
        range: span(),
        name: Some(name.to_string()),
        literal: literal.map(String::from),
        value,
    }
}

fn value(text: Option<&str>, constructor: Option<&str>, tail: TailResult) -> ValueNode {
    ValueNode {
        text: text.map(String::from),
        constructor: constructor.map(String::from),
        converted: converted(),
        tail_reports: Vec::new(),
        tail,
    }
}

fn call(name: &str, args: Vec<ArgNode>) -> CallNode {
    CallNode { name: name.to_string(), name_range: Some(Span::new(10, 15)), near: None, args }
}

/// What a call converts to, and the reports.
fn convert(name: &str, args: Vec<ArgNode>) -> (ConvertStep, Vec<Diagnostic>) {
    let mut diags = Vec::new();
    let node = ParserNode::Call(Some(call(name, args)));
    let step = convert_parser_expr(FILE, span(), node, &mut diags);
    (step, diags)
}

/// The one report of a call that is rejected.
fn rejection(name: &str, args: Vec<ArgNode>) -> String {
    let (step, diags) = convert(name, args);
    assert!(matches!(step, ConvertStep::Done(None)), "{step:?}");
    assert_eq!(diags.len(), 1, "{diags:?}");
    assert_eq!(diags[0].code, DiagCode::InvalidConstructorArgument);
    diags[0].message.clone()
}

fn built(name: &str, args: Vec<ArgNode>) -> Vec<CallArg> {
    match convert(name, args) {
        (ConvertStep::Build { args, .. }, diags) if diags.is_empty() => args,
        other => panic!("{other:?}"),
    }
}

#[test]
fn keywords_name_constructors() {
    for word in ["lines", "sections", "csv", "ws", "sep", "grid", "block", "choice", "optional"] {
        assert_eq!(Constructor::from_keyword(&word.to_string()).unwrap().keyword(), word);
    }
    assert_eq!(Constructor::from_keyword(&"line".to_string()), None);
    assert_eq!(Constructor::Repeated.keyword_len(), 8);
}

#[test]
fn an_atom_is_its_kind() {
    let mut diags = Vec::new();
    let node = ParserNode::Atom {
        text: "int".to_string(),
        kind: Some(AtomicKind(4)),
        near: None,
    };
    match convert_parser_expr(FILE, span(), node, &mut diags) {
        ConvertStep::Done(Some(ParserAst::Atomic { kind, span: at })) => {
            assert_eq!((kind, at), (AtomicKind(4), span()));
        }
        other => panic!("{other:?}"),
    }
    assert!(diags.is_empty());
}

#[test]
fn what_is_rejected_is_reported() {
    let mut diags = Vec::new();
    for (node, code) in [
        (ParserNode::Unknown, DiagCode::MalformedParserExpression),
        (ParserNode::Call(None), DiagCode::MalformedParserExpression),
        (
            ParserNode::Atom { text: "itn".to_string(), kind: None, near: None },
            DiagCode::UnknownAtomic,
        ),
        (ParserNode::Call(Some(call("nope", Vec::new()))), DiagCode::UnknownConstructor),
    ] {
        diags.clear();
        let step = convert_parser_expr(FILE, span(), node, &mut diags);
        assert!(matches!(step, ConvertStep::Done(None)));
        assert_eq!(diags.len(), 1);
        assert_eq!(diags[0].code, code);
    }
    assert_eq!(diags[0].primary, FileSpan::new(FILE, Span::new(10, 15)), "the name alone");
    assert_eq!(diags[0].message, "unknown parser constructor `nope`");
}

#[test]
fn an_argument_that_fails_in_silence_is_reported_by_the_call() {
    assert_eq!(
        rejection("lines", vec![expr_arg(None, false, unconverted())]),
        "`lines` has an argument that is not a parser expression"
    );
    let reported = Converted {
        ast: None,
        reports: vec![Diagnostic::error(
            FileSpan::new(FILE, span()),
            DiagCode::UnknownAtomic,
            "x".to_string(),
        )],
    };
    let (step, diags) = convert("lines", vec![expr_arg(None, false, reported)]);
    assert!(matches!(step, ConvertStep::Done(None)));
    assert_eq!(diags.len(), 1, "what is reported already is enough");
    assert_eq!(diags[0].code, DiagCode::UnknownAtomic);
}

#[test]
fn a_flag_is_a_flag_only_where_it_belongs() {
    let args = built("grid", vec![expr_arg(Some("ragged"), false, unconverted())]);
    assert!(matches!(&args[0], CallArg::Flag(f) if f == "ragged"));
    let args = built("lines", vec![expr_arg(Some("ragged"), false, converted())]);
    assert!(matches!(&args[0], CallArg::Parser(_)));
}

#[test]
fn a_repeated_count_is_a_literal() {
    let first = || expr_arg(Some("int"), true, converted());
    assert!(rejection("repeated", vec![first(), expr_arg(Some("n"), false, unconverted())])
        .starts_with("`repeated`'s count must be a whole-number literal"));
    let args = built("repeated", vec![first(), expr_arg(Some("word"), true, converted())]);
    assert_eq!(args.len(), 2);
    let args = built("repeated", vec![expr_arg(Some("n"), false, converted())]);
    assert_eq!(args.len(), 1, "the first argument is no count");
}

#[test]
fn a_keyword_argument_keeps_its_text() {
    let is_fill = |a: &CallArg, v: &str| {
        matches!(a, CallArg::Keyword { name, value } if name == "fill" && value == v)
    };
    assert!(is_fill(&built("grid", vec![named_arg("fill", Some("0"), None)])[0], "0"));
    let word = value(Some("x"), None, TailResult::Unconverted);
    assert!(is_fill(&built("grid", vec![named_arg("fill", None, Some(word))])[0], "x"));
    let nothing = value(None, None, TailResult::Unconverted);
    assert_eq!(
        rejection("grid", vec![named_arg("fill", None, Some(nothing))]),
        "`fill:` needs a value"
    );
    assert_eq!(
        rejection("sections", vec![named_arg("fill", Some("0"), None)]),
        "`fill:` takes a parser, not a literal value"
    );
}

#[test]
fn a_named_argument_is_a_parser_or_the_tail() {
    let plain = value(Some("int"), None, TailResult::Unconverted);
    let args = built("sections", vec![named_arg("a", None, Some(plain))]);
    assert!(matches!(&args[0], CallArg::Named { name, .. } if name == "a"));
    let tail = RepeatedTail { name: "b".to_string(), parser: Box::new(atom(2)) };
    let marked = value(None, Some("repeated"), TailResult::Built(tail));
    let args = built("sections", vec![named_arg("b", None, Some(marked))]);
    assert!(matches!(&args[0], CallArg::Tail(t) if t.name == "b"));
    let error = ValidationError {
        code: DiagCode::InvalidConstructorArgument,
        message: "one parser".to_string(),
        span: span(),
    };
    let bad = value(None, Some("repeated"), TailResult::Rejected(vec![error]));
    assert_eq!(rejection("sections", vec![named_arg("b", None, Some(bad))]), "one parser");
}

#[test]
fn a_literal_is_a_number_or_a_text() {
    let literal = |raw: &str, number: Option<i64>, text: Option<&str>| ArgNode::Literal {
        range: span(),
        raw: raw.to_string(),
        number,
        text: text.map(String::from),
    };
    assert!(matches!(built("sep", vec![literal("-12", Some(-12), None)])[0], CallArg::Int(-12)));
    let args = built("sep", vec![literal("\"1\"", Some(1), Some("1"))]);
    assert!(matches!(&args[0], CallArg::Text(t) if t == "1"), "quotes make a text");
    assert_eq!(
        rejection("sep", vec![literal("'c'", None, None)]),
        "a parser constructor's literal argument must be a text literal or a whole number"
    );
    assert_eq!(
        rejection("sep", vec![literal("99999999999999999999", None, None)]),
        "a parser constructor's literal argument must be a text literal or a whole number"
    );
}

#[test]
fn the_arguments_of_a_tail_are_all_or_none() {
    let mut diags = Vec::new();
    let args = vec![expr_arg(Some("int"), true, converted())];
    let got = repeated_call_args(FILE, span(), Some(call("repeated", args)), &mut diags);
    assert_eq!(got.unwrap().len(), 1);
    let args = vec![expr_arg(None, false, unconverted())];
    assert!(repeated_call_args(FILE, span(), Some(call("repeated", args)), &mut diags).is_none());
    assert!(diags.is_empty());
    assert!(repeated_call_args(FILE, span(), None, &mut diags).is_none());
    assert_eq!(diags[0].code, DiagCode::MalformedParserExpression);
}

#[test]
fn a_template_has_an_interior_when_it_is_closed() {
    let interior = |t: &str| template_interior(&t.to_string(), 5);
    assert_eq!(interior("`{int}`"), Some(("{int}".to_string(), 6)));
    assert_eq!(interior("``"), Some((String::new(), 6)));
    assert_eq!(interior("`{int}"), None);
    assert_eq!(interior("`"), None);
    assert_eq!(interior(""), None);
}

fn scan_error(unknown_name: Option<&str>, near: Option<&str>) -> ScanError {
    ScanError {
        offset: 1,
        code: DiagCode::UnknownCaptureKind,
        message: "no such parser".to_string(),
        unknown_name: unknown_name.map(String::from),
        near: near.map(String::from),
    }
}

fn template(text: &str, scanned: Result<Vec<TemplatePart>, ScanError>) -> Option<TemplateNode> {
    let range = Span::new(10, 10 + text.len() as u32);
    Some(TemplateNode { text: text.to_string(), range, scanned })
}

#[test]
fn a_scan_error_underlines_the_word_it_is_about() {
    let mut diags = Vec::new();
    let node = template("`{itn}`", Err(scan_error(Some("itn"), Some("int"))));
    assert!(convert_template(FILE, node, &mut diags).is_empty());
    assert_eq!(diags[0].primary.span, Span::new(12, 15));
    assert_eq!(diags[0].suggestions[0].replacement.as_deref(), Some("int"));
    let node = template("`{itn}`", Err(scan_error(None, Some("int"))));
    convert_template(FILE, node, &mut diags);
    assert_eq!(diags[1].primary.span, Span::new(12, 12), "a point where there is no word");
    assert!(diags[1].suggestions.is_empty());
    let node = template("`{i`", Err(scan_error(Some("a-long-word"), None)));
    convert_template(FILE, node, &mut diags);
    assert_eq!(diags[2].primary.span, Span::new(12, 14), "never past the template");
}

#[test]
fn a_template_that_is_not_closed_was_reported_before() {
    let mut diags = Vec::new();
    let node = template("`{itn", Err(scan_error(Some("itn"), None)));
    assert!(convert_template(FILE, node, &mut diags).is_empty());
    assert!(convert_template(FILE, None, &mut diags).is_empty());
    assert!(diags.is_empty());
    let part = TemplatePart::Literal { text: "x".to_string(), span: Span::new(11, 12) };
    assert_eq!(convert_template(FILE, template("`x`", Ok(vec![part])), &mut diags).len(), 1);
}

#[test]
fn what_was_built_or_validated_is_taken_or_reported() {
    let error = || ValidationError {
        code: DiagCode::ParserConversion,
        message: "no".to_string(),
        span: Span::new(1, 2),
    };
    let mut diags = Vec::new();
    assert!(finish_call(FILE, Ok(atom(1)), &mut diags).is_some());
    assert!(accept_valid(FILE, Some(atom(1)), &Vec::new(), &mut diags).is_some());
    assert!(accept_valid(FILE, None, &vec![error()], &mut diags).is_none());
    assert!(diags.is_empty());
    assert!(finish_call(FILE, Err(vec![error(), error()]), &mut diags).is_none());
    assert!(accept_valid(FILE, Some(atom(1)), &vec![error()], &mut diags).is_none());
    assert_eq!(diags.len(), 3);
    assert_eq!(diags[0].primary, FileSpan::new(FILE, Span::new(1, 2)));
}

#[test]
fn an_error_keeps_the_code_it_was_given() {
    for code in [
        DiagCode::ConstructorArity,
        DiagCode::MisplacedRepeatedTail,
        DiagCode::InvalidConstructorArgument,
    ] {
        let error = ValidationError { code, message: "no".to_string(), span: span() };
        let mut diags = Vec::new();
        assert!(finish_call(FILE, Err(vec![error]), &mut diags).is_none());
        assert_eq!(diags[0].code, code);
        assert_eq!(code.parts().0, 'I');
    }
}

#[test]
fn an_expression_is_analyzed_as_far_as_it_goes() {
    let mut diags = Vec::new();
    assert!(analyze_parser_expr(FILE, span(), Outcome::Rejected, &mut diags).is_none());
    assert!(diags.is_empty());
    let outcome = Outcome::Untyped("no type".to_string());
    assert!(analyze_parser_expr(FILE, span(), outcome, &mut diags).is_none());
    let outcome = Outcome::Unregistered("too many plans".to_string());
    assert!(analyze_parser_expr(FILE, span(), outcome, &mut diags).is_none());
    let messages: Vec<&str> = diags.iter().map(|d| d.message.as_str()).collect();
    assert_eq!(messages, ["no type", "too many plans"]);
    let outcome = Outcome::Planned(PlanId(8), int_ty());
    let done = analyze_parser_expr(FILE, span(), outcome, &mut diags).unwrap();
    assert_eq!(done.plan, PlanId(8));
    assert!(done.result_type.same(&int_ty()));
}

#[test]
fn a_tree_is_kept_exactly_when_it_has_a_type() {
    let mut diags = Vec::new();
    let mut index = Vec::new();
    let typed = || Ok((int_ty(), vec![(Span::new(1, 4), int_ty())]));
    let none = synthesize_parser_type(FILE, span(), None, typed(), &mut diags, &mut index);
    assert!(none.is_none() && index.is_empty() && diags.is_empty());
    let failed = Err("no type".to_string());
    let none = synthesize_parser_type(FILE, span(), Some(atom(1)), failed, &mut diags, &mut index);
    assert!(none.is_none() && index.is_empty());
    assert_eq!(diags[0].code, DiagCode::ParserConversion);
    let ty = synthesize_parser_type(FILE, span(), Some(atom(1)), typed(), &mut diags, &mut index);
    assert!(ty.unwrap().same(&int_ty()));
    assert_eq!(index.len(), 1);
    assert_eq!(index[0].expr_range, span());
    assert!(index[0].type_at(2).is_some());
}
