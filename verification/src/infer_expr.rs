//! Inference over expressions and statements.
use vstd::prelude::*;

use crate::ast::{
    AssignToken, Block, Expr, ExprKind, FieldInit, Ident, InterpPart, LitToken, MatchArm, Param,
    ParserBody, Pattern, PlaceAssignOp, Stmt, StmtKind, TypeExpr,
};
use crate::infer::{
    bool_type, ctor_named, first_row, int_type, is_known, literal_type, span_of, text_type,
    tuple_type, Deferred, Inferer,
};
use crate::infer_spec;
use crate::infer_spec::{Asked, Inf, LoopFrame, PlaceKind, StoreOp};
use crate::pattern::int_literal_out_of_range;
use crate::scope::ScopeId;
use crate::source::{copy_diags, push_diag, text, DiagCode, FileSpan, Span};
use crate::symbol::{SymbolId, SymbolKind};
use crate::typedb::{monotype, Capability, Scheme};
use crate::types::{CollectionCtor, Type, TypeList};

verus! {

/// Where a block's value stands.
pub fn tail_span(b: &Block) -> (r: Span)
    ensures
        r == infer_spec::tail_span(*b),
{
    if b.stmts.len() > 0 {
        if let StmtKind::Expr(e) = &b.stmts[b.stmts.len() - 1].kind {
            if let Some(e) = e {
                return e.range;
            }
        }
    }
    b.range
}

pub(crate) fn block_span(b: &Option<Block>, whole: Span) -> (r: Span)
    ensures
        r == infer_spec::block_span(*b, whole),
{
    match b {
        Some(b) => tail_span(b),
        None => whole,
    }
}

fn loop_type(b: Option<Type>) -> (r: Type)
    ensures
        r == infer_spec::loop_type(b),
{
    match b {
        Some(t) => t,
        None => Type::Never,
    }
}

fn is_closure(e: &Option<Box<Expr>>) -> (r: bool)
    ensures
        r == infer_spec::is_closure(*e),
{
    match e {
        Some(e) => match &e.kind {
            ExprKind::Closure { .. } => true,
            _ => false,
        },
        None => false,
    }
}

fn store_op(op: &Option<AssignToken>) -> (r: StoreOp)
    ensures
        r == infer_spec::store_op(*op),
{
    match op {
        None => StoreOp::Replace,
        Some(AssignToken::Eq) => StoreOp::Replace,
        Some(AssignToken::PlusEq) => StoreOp::Add,
        Some(AssignToken::PercentEq) => StoreOp::Remainder,
        _ => StoreOp::Combine,
    }
}

fn place_op(op: PlaceAssignOp) -> (r: StoreOp)
    ensures
        r == infer_spec::place_op(op),
{
    match op {
        PlaceAssignOp::Store => StoreOp::Replace,
        PlaceAssignOp::Plus => StoreOp::Add,
        PlaceAssignOp::Rem => StoreOp::Remainder,
        _ => StoreOp::Combine,
    }
}

fn store_row(op: PlaceAssignOp) -> (r: &'static str)
    ensures
        r@ == infer_spec::store_row(op),
{
    match op {
        PlaceAssignOp::Min => "[]min=",
        PlaceAssignOp::Max => "[]max=",
        _ => "[]=",
    }
}

fn is_update(op: PlaceAssignOp) -> (r: bool)
    ensures
        r == infer_spec::is_update(op),
{
    op == PlaceAssignOp::Min || op == PlaceAssignOp::Max
}

fn place_kind(e: &Option<Box<Expr>>) -> (r: PlaceKind)
    ensures
        r == infer_spec::place_kind(*e),
{
    match e {
        None => PlaceKind::Field,
        Some(e) => match &e.kind {
            ExprKind::FieldGet { .. } => PlaceKind::Field,
            ExprKind::Index { .. } => PlaceKind::Subscript,
            _ => PlaceKind::NotAPlace,
        },
    }
}

/// How many arguments a store through a subscript has.
fn index_count(e: &Option<Box<Expr>>) -> (r: Option<usize>)
    ensures
        match r {
            Some(n) => n == infer_spec::index_count(*e) + 1,
            None => infer_spec::index_count(*e) == usize::MAX,
        },
{
    match e {
        Some(e) => match &e.kind {
            ExprKind::Index { indices, .. } => indices.len().checked_add(1),
            _ => Some(1),
        },
        None => Some(1),
    }
}

impl Inferer {
    fn record(&mut self, e: &Expr, ty: &Type)
        ensures
            final(self)@ == infer_spec::record(old(self)@, *e, *ty),
    {
        self.expr_types.insert(e.key(), ty.dup());
    }

    fn infer_literal(&mut self, tok: &Option<LitToken>, range: Span) -> (r: Type)
        ensures
            (r, final(self)@) == infer_spec::infer_literal(old(self)@, *tok, range),
    {
        let Some(tok) = tok else {
            return self.fresh();
        };
        if let LitToken::Int(value, digits) = tok {
            if value.is_none() {
                let d = int_literal_out_of_range(FileSpan::new(self.file, range), digits);
                push_diag(&mut self.diags, d);
            }
            return int_type();
        }
        if let LitToken::Template = tok {
            self.report(range, DiagCode::TemplateValue, text("a template is only read by a parser"));
            return self.fresh();
        }
        match literal_type(tok) {
            Some(t) => t,
            None => self.fresh(),
        }
    }

    fn infer_parser(&mut self, body: &Option<ParserBody>) -> (r: Type)
        ensures
            (r, final(self)@) == infer_spec::infer_parser(old(self)@, *body),
    {
        let Some(b) = body else {
            return self.fresh();
        };
        copy_diags(&b.reports, &mut self.diags);
        if let Some(x) = &b.index {
            let ghost before = self@.parser_exprs;
            self.parser_exprs.push(x.dup());
            assert(self@.parser_exprs =~= before.push(x@));
        }
        match &b.result_type {
            Some(t) => t.dup(),
            None => self.fresh(),
        }
    }

    /// The type of an expression, which is recorded under its key.
    pub fn infer_expr(&mut self, e: &Expr) -> (r: Type)
        ensures
            (r, final(self)@) == infer_spec::infer_expr(old(self)@, *e),
        decreases e, 2nat,
    {
        let t = self.infer_kind(e);
        self.record(e, &t);
        t
    }

    fn infer_opt(&mut self, e: &Option<Box<Expr>>) -> (r: Type)
        ensures
            (r, final(self)@) == infer_spec::infer_opt(old(self)@, *e),
        decreases e, 0nat,
    {
        match e {
            Some(e) => self.infer_expr(e),
            None => self.fresh(),
        }
    }

    fn infer_or_unit(&mut self, e: &Option<Box<Expr>>) -> (r: Type)
        ensures
            (r, final(self)@) == infer_spec::infer_or_unit(old(self)@, *e),
        decreases e, 0nat,
    {
        match e {
            Some(e) => self.infer_expr(e),
            None => Type::Unit,
        }
    }

    fn infer_at(&mut self, e: &Option<Box<Expr>>, want: &Type, whole: Span)
        ensures
            final(self)@ == infer_spec::infer_at(old(self)@, *e, *want, whole),
        decreases e, 1nat,
    {
        let t = self.infer_opt(e);
        self.expect(want, &t, span_of(e, whole));
    }

    fn infer_list(&mut self, es: &Vec<Expr>) -> (r: Vec<Type>)
        ensures
            (r@, final(self)@) == infer_spec::infer_list(old(self)@, es@),
            r@.len() == es@.len(),
        decreases es, 0nat,
    {
        let mut out: Vec<Type> = Vec::new();
        let mut i: usize = 0;
        assert(out@ =~= Seq::empty());
        while i < es.len()
            invariant
                i <= es@.len(),
                out@.len() == i,
                (out@, self@) == infer_spec::infer_list(old(self)@, es@.take(i as int)),
            decreases es@.len() - i,
        {
            let t = self.infer_expr(&es[i]);
            out.push(t);
            assert(es@.take(i + 1).drop_last() =~= es@.take(i as int));
            assert(es@.take(i + 1).last() == es@[i as int]);
            i += 1;
        }
        assert(es@.take(i as int) =~= es@);
        out
    }

    fn infer_items(&mut self, es: &Vec<Expr>, item: &Type)
        ensures
            final(self)@ == infer_spec::infer_items(old(self)@, es@, *item),
        decreases es, 0nat,
    {
        let mut i: usize = 0;
        while i < es.len()
            invariant
                i <= es@.len(),
                self@ == infer_spec::infer_items(old(self)@, es@.take(i as int), *item),
            decreases es@.len() - i,
        {
            let t = self.infer_expr(&es[i]);
            self.expect(item, &t, es[i].range);
            assert(es@.take(i + 1).drop_last() =~= es@.take(i as int));
            assert(es@.take(i + 1).last() == es@[i as int]);
            i += 1;
        }
        assert(es@.take(i as int) =~= es@);
    }

    fn infer_parts(&mut self, ps: &Vec<InterpPart>)
        ensures
            final(self)@ == infer_spec::infer_parts(old(self)@, ps@),
        decreases ps, 0nat,
    {
        let mut i: usize = 0;
        while i < ps.len()
            invariant
                i <= ps@.len(),
                self@ == infer_spec::infer_parts(old(self)@, ps@.take(i as int)),
            decreases ps@.len() - i,
        {
            assert(ps@.take(i + 1).drop_last() =~= ps@.take(i as int));
            assert(ps@.take(i + 1).last() == ps@[i as int]);
            match &ps[i] {
                InterpPart::Fragment(_) => {},
                InterpPart::Hole(e) => {
                    let _ = self.infer_expr(e);
                },
            }
            i += 1;
        }
        assert(ps@.take(i as int) =~= ps@);
    }

    fn infer_kind(&mut self, e: &Expr) -> (r: Type)
        ensures
            (r, final(self)@) == infer_spec::infer_kind(old(self)@, *e),
        decreases e, 1nat,
    {
        match &e.kind {
            ExprKind::Literal(tok) => self.infer_literal(tok, e.range),
            ExprKind::Interp(parts) => {
                self.infer_parts(parts);
                text_type()
            },
            ExprKind::Path(name) => match name {
                Some(n) => self.infer_name(n),
                None => self.fresh(),
            },
            ExprKind::Bin { lhs, op, rhs } => {
                let l = self.infer_opt(lhs);
                let r = self.infer_opt(rhs);
                self.bin_type(op, l, r, span_of(lhs, e.range), span_of(rhs, e.range), e.range)
            },
            ExprKind::Range { start, end, .. } => {
                self.infer_at(start, &int_type(), e.range);
                self.infer_at(end, &int_type(), e.range);
                Type::Collection(CollectionCtor::Range, TypeList::Nil)
            },
            ExprKind::Unary { op, operand } => {
                let t = self.infer_opt(operand);
                self.unary_type(op, t, span_of(operand, e.range))
            },
            ExprKind::Paren(inner) => self.infer_opt(inner),
            ExprKind::Block(b) => self.infer_block(b),
            ExprKind::If { .. } => self.infer_if(e),
            ExprKind::While { cond, body } => {
                self.infer_at(cond, &bool_type(), e.range);
                let _ = self.infer_loop(body, false);
                Type::Unit
            },
            ExprKind::For { .. } => self.infer_for(e),
            ExprKind::Loop { body } => {
                let b = self.infer_loop(body, true);
                loop_type(b)
            },
            ExprKind::Break(value) => {
                let t = self.infer_or_unit(value);
                self.note_break(value.is_some(), t, span_of(value, e.range), e.range);
                Type::Never
            },
            ExprKind::Continue => {
                self.note_continue(e.range);
                Type::Never
            },
            ExprKind::Return(value) => {
                let t = self.infer_or_unit(value);
                self.note_return(&t, span_of(value, e.range), e.range);
                Type::Never
            },
            ExprKind::Call { .. } => self.infer_call(e),
            ExprKind::MethodCall { .. } => self.infer_method(e),
            ExprKind::Tuple(es) => {
                let ts = self.infer_list(es);
                tuple_type(&ts)
            },
            ExprKind::List(es) => {
                let item = self.fresh();
                self.infer_items(es, &item);
                let items = vec![item];
                assert(items@ =~= seq![item]);
                Type::Collection(CollectionCtor::Vec, TypeList::from_vec(&items))
            },
            ExprKind::Read(body) => self.infer_parser(body),
            ExprKind::Parse { text, parser } => {
                self.infer_at(text, &text_type(), e.range);
                self.infer_parser(parser)
            },
            ExprKind::RecordLit { .. } => self.infer_record(e),
            ExprKind::FieldGet { receiver, name } => {
                let t = self.infer_opt(receiver);
                self.field_get(&t, name)
            },
            ExprKind::TupleIndex { receiver, index } => {
                let t = self.infer_opt(receiver);
                self.tuple_get(&t, index, e.range)
            },
            ExprKind::Index { receiver, indices } => {
                let t = self.infer_opt(receiver);
                let is = self.infer_list(indices);
                self.index_type(&t, &is, indices, e.range)
            },
            ExprKind::Match { scrutinee, arms } => {
                let t = self.infer_opt(scrutinee);
                self.infer_arms(arms, &t, e.range)
            },
            ExprKind::Closure { .. } => self.infer_closure(e, &None),
            ExprKind::Error => self.fresh(),
        }
    }

    fn infer_if(&mut self, e: &Expr) -> (r: Type)
        ensures
            (r, final(self)@) == infer_spec::infer_if(old(self)@, *e),
        decreases e, 0nat,
    {
        match &e.kind {
            ExprKind::If { cond, then_branch, else_branch } => {
                self.infer_at(cond, &bool_type(), e.range);
                let t = self.infer_opt_block(then_branch);
                match else_branch {
                    None => {
                        self.expect(&Type::Unit, &t, block_span(then_branch, e.range));
                        Type::Unit
                    },
                    Some(b) => {
                        let u = self.infer_opt(else_branch);
                        self.join(t, u, b.range)
                    },
                }
            },
            _ => Type::Unit,
        }
    }

    fn infer_loop(&mut self, body: &Option<Block>, valued: bool) -> (r: Option<Type>)
        ensures
            (r, final(self)@) == infer_spec::infer_loop(old(self)@, *body, valued),
        decreases body, 1nat,
    {
        self.enter_loop(valued);
        let _ = self.infer_opt_block(body);
        self.leave_loop()
    }

    pub(crate) fn infer_opt_block(&mut self, b: &Option<Block>) -> (r: Type)
        ensures
            (r, final(self)@) == infer_spec::infer_opt_block(old(self)@, *b),
        decreases b, 0nat,
    {
        match b {
            Some(b) => self.infer_block(b),
            None => self.fresh(),
        }
    }

    fn infer_for(&mut self, e: &Expr) -> (r: Type)
        ensures
            (r, final(self)@) == infer_spec::infer_for(old(self)@, *e),
        decreases e, 0nat,
    {
        match &e.kind {
            ExprKind::For { binding, iter, body } => {
                let t = self.infer_opt(iter);
                let item = self.fresh();
                self.require(Capability::Iterable, &t, &item, span_of(iter, e.range));
                let n: usize = self.env.len();
                let scope = self.scope;
                self.enter();
                self.bind_item(binding, &item);
                let _ = self.infer_loop(body, false);
                self.leave(n, scope);
                Type::Unit
            },
            _ => Type::Unit,
        }
    }

    /// A call of a name in scope.
    fn infer_named_call(&mut self, e: &Expr, name: &Ident, id: SymbolId, args: &Vec<Expr>) -> (r: Type)
        ensures
            (r, final(self)@) == ({
                let (f, s1) = infer_spec::use_symbol(old(self)@, id, name.range);
                let (got, s2) = infer_spec::infer_list(
                    infer_spec::refer(s1, name.range, id, f),
                    args@,
                );
                let (r, s3) = infer_spec::call_type(s2, f, got, args@, e.range);
                (r, infer_spec::note_call(s3, *name, id, got, r))
            }),
        decreases args, 1nat,
    {
        let f = self.use_symbol(id, name.range);
        self.refer(name.range, id, &f);
        let got = self.infer_list(args);
        let r = self.call_type(&f, &got, args, e.range);
        self.note_call(name, id, &got, &r);
        r
    }

    /// A call of a collection's name.
    fn infer_ctor_call(
        &mut self,
        e: &Expr,
        name: &Ident,
        c: CollectionCtor,
        type_args: &Vec<TypeExpr>,
        args: &Vec<Expr>,
    ) -> (r: Type)
        ensures
            (r, final(self)@) == ({
                let (ts, s1) = infer_spec::types_of(old(self)@, type_args@);
                let (items, s2) = infer_spec::ctor_args(s1, c, *name, ts);
                let (got, s3) = infer_spec::infer_list(s2, args@);
                infer_spec::construct(s3, c, items, got, args@, e.range)
            }),
        decreases args, 1nat,
    {
        let ts = self.types_of(type_args);
        let items = self.ctor_args(c, name, ts);
        let got = self.infer_list(args);
        self.construct(c, &items, &got, args, e.range)
    }

    fn infer_call(&mut self, e: &Expr) -> (r: Type)
        ensures
            (r, final(self)@) == infer_spec::infer_call(old(self)@, *e),
        decreases e, 0nat,
    {
        match &e.kind {
            ExprKind::Call { callee, type_args, callee_expr, args } => match callee {
                Some(name) => {
                    if let Some(id) = self.in_scope(&name.text) {
                        return self.infer_named_call(e, name, id, args);
                    }
                    if let Some(c) = ctor_named(&name.text) {
                        return self.infer_ctor_call(e, name, c, type_args, args);
                    }
                    self.unknown_name(name);
                    let _ = self.infer_list(args);
                    self.fresh()
                },
                None => {
                    let f = self.infer_opt(callee_expr);
                    let got = self.infer_list(args);
                    self.call_type(&f, &got, args, e.range)
                },
            },
            _ => Type::Unit,
        }
    }

    fn infer_args(&mut self, es: &Vec<Expr>, wants: &Vec<Type>)
        ensures
            final(self)@ == infer_spec::infer_args(old(self)@, es@, wants@),
        decreases es, 0nat,
    {
        let mut i: usize = 0;
        while i < es.len()
            invariant
                i <= es@.len(),
                self@ == infer_spec::infer_args(old(self)@, es@.take(i as int), wants@),
            decreases es@.len() - i,
        {
            assert(decreases_to!(es => es@[i as int]));
            let want = self.type_at(wants, i);
            self.infer_arg(&es[i], want);
            assert(es@.take(i + 1).drop_last() =~= es@.take(i as int));
            assert(es@.take(i + 1).last() == es@[i as int]);
            i += 1;
        }
        assert(es@.take(i as int) =~= es@);
    }

    fn infer_arg(&mut self, e: &Expr, want: Type)
        ensures
            final(self)@ == infer_spec::infer_arg(old(self)@, *e, want),
        decreases e, 3nat,
    {
        match &e.kind {
            ExprKind::Closure { .. } => {
                let t = self.infer_closure(e, &Some(want));
                self.record(e, &t);
            },
            _ => {
                let t = self.infer_expr(e);
                self.expect(&want, &t, e.range);
            },
        }
    }

    /// A method call whose row is known.
    fn infer_row_call(&mut self, name: &Ident, i: usize, t: &Type, args: &Vec<Expr>) -> (r: Type)
        requires
            i < old(self).methods@.len(),
        ensures
            (r, final(self)@) == ({
                let st = old(self)@;
                let row = st.methods[i as int];
                let (wants, r, s2) = infer_spec::use_row(st, row, *t, name.range);
                let s3 = infer_spec::infer_args(s2, args@, wants);
                (r, infer_spec::note_method(s3, name.range, row.entry, *t, r))
            }),
        decreases args, 1nat,
    {
        let entry = self.methods[i].entry;
        assert(self@.methods[i as int].entry == entry);
        let (wants, r) = self.use_row(i, t, name.range);
        self.infer_args(args, &wants);
        self.note_method(name.range, entry, t, &r);
        r
    }

    fn infer_method(&mut self, e: &Expr) -> (r: Type)
        ensures
            (r, final(self)@) == infer_spec::infer_method(old(self)@, *e),
        decreases e, 0nat,
    {
        match &e.kind {
            ExprKind::MethodCall { receiver, name, args } => {
                let recv = self.infer_opt(receiver);
                let t = self.db.deep_resolve(&recv);
                let (open, never) = match &t {
                    Type::Var(_) => (true, false),
                    Type::Never => (false, true),
                    _ => (false, false),
                };
                if let Some(n) = name {
                    if open {
                        let got = self.infer_list(args);
                        if is_known(&self.methods, &n.text, got.len()) {
                            return self.defer(Asked::Method, &n.text, n.range, &t, &got);
                        }
                        self.no_such_method(n, got.len());
                        return self.fresh();
                    }
                    if !never {
                        if let Some(i) = first_row(&self.methods, &n.text, args.len(), &t) {
                            return self.infer_row_call(n, i, &t, args);
                        }
                        let _ = self.infer_list(args);
                        self.no_method(&n.text, n.range, &t, args.len());
                        return self.fresh();
                    }
                }
                let _ = self.infer_list(args);
                self.fresh()
            },
            _ => Type::Unit,
        }
    }

    fn infer_record(&mut self, e: &Expr) -> (r: Type)
        ensures
            (r, final(self)@) == infer_spec::infer_record(old(self)@, *e),
        decreases e, 0nat,
    {
        match &e.kind {
            ExprKind::RecordLit { head, fields } => {
                match self.head_type(head) {
                    Some(ty) => {
                        self.infer_fields(fields, &ty);
                        let names = self.declared_fields(&ty);
                        self.report_missing(&names, fields, e.range);
                        ty
                    },
                    None => {
                        let ty = self.fresh();
                        self.infer_values(fields);
                        ty
                    },
                }
            },
            _ => Type::Unit,
        }
    }

    fn infer_field(&mut self, f: &FieldInit) -> (r: Type)
        ensures
            (r, final(self)@) == infer_spec::infer_field(old(self)@, *f),
        decreases f, 1nat,
    {
        match &f.expr {
            Some(_) => self.infer_opt(&f.expr),
            None => match &f.name {
                Some(n) => self.infer_name(n),
                None => self.fresh(),
            },
        }
    }

    fn infer_fields(&mut self, fs: &Vec<FieldInit>, ty: &Type)
        ensures
            final(self)@ == infer_spec::infer_fields(old(self)@, fs@, *ty),
        decreases fs, 0nat,
    {
        let mut i: usize = 0;
        while i < fs.len()
            invariant
                i <= fs@.len(),
                self@ == infer_spec::infer_fields(old(self)@, fs@.take(i as int), *ty),
            decreases fs@.len() - i,
        {
            assert(decreases_to!(fs => fs@[i as int]));
            let t = self.infer_field(&fs[i]);
            assert(fs@.take(i + 1).drop_last() =~= fs@.take(i as int));
            assert(fs@.take(i + 1).last() == fs@[i as int]);
            if let Some(n) = &fs[i].name {
                self.check_field(fs, i, n, ty, &t, span_of(&fs[i].expr, n.range));
            }
            i += 1;
        }
        assert(fs@.take(i as int) =~= fs@);
    }

    fn infer_values(&mut self, fs: &Vec<FieldInit>)
        ensures
            final(self)@ == infer_spec::infer_values(old(self)@, fs@),
        decreases fs, 0nat,
    {
        let mut i: usize = 0;
        while i < fs.len()
            invariant
                i <= fs@.len(),
                self@ == infer_spec::infer_values(old(self)@, fs@.take(i as int)),
            decreases fs@.len() - i,
        {
            assert(decreases_to!(fs => fs@[i as int]));
            let _ = self.infer_field(&fs[i]);
            assert(fs@.take(i + 1).drop_last() =~= fs@.take(i as int));
            assert(fs@.take(i + 1).last() == fs@[i as int]);
            i += 1;
        }
        assert(fs@.take(i as int) =~= fs@);
    }

    fn infer_arms(&mut self, arms: &Vec<MatchArm>, ty: &Type, whole: Span) -> (r: Type)
        ensures
            (r, final(self)@) == infer_spec::infer_arms(old(self)@, arms@, *ty, whole),
        decreases arms, 0nat,
    {
        let mut out = Type::Never;
        let mut i: usize = 0;
        while i < arms.len()
            invariant
                i <= arms@.len(),
                (out, self@) == infer_spec::infer_arms(
                    old(self)@,
                    arms@.take(i as int),
                    *ty,
                    whole,
                ),
            decreases arms@.len() - i,
        {
            assert(decreases_to!(arms => arms@[i as int]));
            let t = self.infer_arm(&arms[i], ty);
            assert(arms@.take(i + 1).drop_last() =~= arms@.take(i as int));
            assert(arms@.take(i + 1).last() == arms@[i as int]);
            out = self.join(out, t, span_of(&arms[i].body, whole));
            i += 1;
        }
        assert(arms@.take(i as int) =~= arms@);
        out
    }

    fn infer_arm(&mut self, arm: &MatchArm, ty: &Type) -> (r: Type)
        ensures
            (r, final(self)@) == infer_spec::infer_arm(old(self)@, *arm, *ty),
        decreases arm, 1nat,
    {
        let n: usize = self.env.len();
        let scope = self.scope;
        self.enter();
        self.bind_opt(&arm.pattern, ty);
        let t = self.infer_opt(&arm.body);
        self.leave(n, scope);
        t
    }

    fn declare_unnamed(&mut self, range: Span, ty: &Type)
        ensures
            final(self)@ == infer_spec::declare(
                old(self)@,
                "_"@,
                range,
                SymbolKind::Param,
                Some(monotype(*ty)),
            ),
    {
        self.declare(&text("_"), range, SymbolKind::Param, Some(Scheme::monotype(ty.dup())));
    }

    fn bind_item(&mut self, p: &Option<Pattern>, item: &Type)
        ensures
            final(self)@ == infer_spec::bind_item(old(self)@, *p, *item),
    {
        if let Some(p) = p {
            self.ref_types.insert(p.range, item.dup());
            self.bind_pattern(p, item);
        }
    }

    pub(crate) fn bind_param(&mut self, p: &Param, ty: &Type)
        ensures
            final(self)@ == infer_spec::bind_param(old(self)@, *p, *ty),
    {
        match &p.name {
            Some(n) => self.declare_mono(n, SymbolKind::Param, ty),
            None => match &p.wildcard {
                Some(range) => self.declare_unnamed(*range, ty),
                None => {
                    if let Some(pat) = &p.pattern {
                        self.declare_unnamed(pat.range, ty);
                        self.bind_pattern(pat, ty);
                    }
                },
            },
        }
    }

    pub(crate) fn param_types(&mut self, ps: &Vec<Param>) -> (r: Vec<Type>)
        ensures
            (r@, final(self)@) == infer_spec::param_types(old(self)@, ps@),
    {
        let mut out: Vec<Type> = Vec::new();
        let mut i: usize = 0;
        assert(out@ =~= Seq::empty());
        while i < ps.len()
            invariant
                i <= ps@.len(),
                (out@, self@) == infer_spec::param_types(old(self)@, ps@.take(i as int)),
            decreases ps@.len() - i,
        {
            let t = self.annotated(&ps[i].annotation);
            out.push(t);
            assert(ps@.take(i + 1).drop_last() =~= ps@.take(i as int));
            assert(ps@.take(i + 1).last() == ps@[i as int]);
            i += 1;
        }
        assert(ps@.take(i as int) =~= ps@);
        out
    }

    pub(crate) fn bind_params(&mut self, ps: &Vec<Param>, ts: &Vec<Type>)
        ensures
            final(self)@ == infer_spec::bind_params(old(self)@, ps@, ts@),
    {
        let mut i: usize = 0;
        while i < ps.len()
            invariant
                i <= ps@.len(),
                self@ == infer_spec::bind_params(old(self)@, ps@.take(i as int), ts@),
            decreases ps@.len() - i,
        {
            let t = self.type_at(ts, i);
            self.bind_param(&ps[i], &t);
            assert(ps@.take(i + 1).drop_last() =~= ps@.take(i as int));
            assert(ps@.take(i + 1).last() == ps@[i as int]);
            i += 1;
        }
        assert(ps@.take(i as int) =~= ps@);
    }

    /// Enters a function, and hands out what has to be restored.
    pub(crate) fn enter_fn(&mut self, r: Type) -> (saved: (Option<Type>, Vec<LoopFrame>))
        ensures
            final(self)@ == infer_spec::enter_fn(old(self)@, r),
            saved.0 == old(self)@.result,
            saved.1@ == old(self)@.breaks,
    {
        let mut result: Option<Type> = Some(r);
        let mut breaks: Vec<LoopFrame> = Vec::new();
        core::mem::swap(&mut self.result, &mut result);
        core::mem::swap(&mut self.breaks, &mut breaks);
        assert(self@.breaks =~= Seq::empty());
        self.enter();
        (result, breaks)
    }

    pub(crate) fn leave_fn(
        &mut self,
        saved: (Option<Type>, Vec<LoopFrame>),
        n: usize,
        scope: ScopeId,
        Ghost(outer): Ghost<Inf>,
    )
        requires
            saved.0 == outer.result,
            saved.1@ == outer.breaks,
            n == outer.env.len(),
            scope == outer.scope,
        ensures
            final(self)@ == infer_spec::leave_fn(old(self)@, outer),
    {
        self.result = saved.0;
        self.breaks = saved.1;
        self.leave(n, scope);
    }

    fn infer_closure(&mut self, e: &Expr, want: &Option<Type>) -> (r: Type)
        ensures
            (r, final(self)@) == infer_spec::infer_closure(old(self)@, *e, *want),
        decreases e, 0nat,
    {
        match &e.kind {
            ExprKind::Closure { params, body } => {
                let ts = self.param_types(params);
                let r = self.fresh();
                let t = Type::Func(TypeList::from_vec(&ts), Box::new(r.dup()));
                if let Some(w) = want {
                    self.expect(w, &t, e.range);
                }
                let ghost s3 = self@;
                let n: usize = self.env.len();
                let scope = self.scope;
                let saved = self.enter_fn(r.dup());
                self.bind_params(params, &ts);
                self.infer_at(body, &r, e.range);
                self.leave_fn(saved, n, scope, Ghost(s3));
                t
            },
            _ => Type::Unit,
        }
    }

    // -----------------------------------------------------------------------
    // Statements
    // -----------------------------------------------------------------------

    pub(crate) fn infer_block(&mut self, b: &Block) -> (r: Type)
        ensures
            (r, final(self)@) == infer_spec::infer_block(old(self)@, *b),
        decreases b, 0nat,
    {
        let n: usize = self.env.len();
        let scope = self.scope;
        self.enter();
        let t = self.infer_stmts(&b.stmts);
        self.leave(n, scope);
        t
    }

    fn infer_stmts(&mut self, stmts: &Vec<Stmt>) -> (r: Type)
        ensures
            (r, final(self)@) == infer_spec::infer_stmts(old(self)@, stmts@),
        decreases stmts, 0nat,
    {
        let mut out = Type::Unit;
        let mut i: usize = 0;
        while i < stmts.len()
            invariant
                i <= stmts@.len(),
                (out, self@) == infer_spec::infer_stmts(old(self)@, stmts@.take(i as int)),
            decreases stmts@.len() - i,
        {
            assert(decreases_to!(stmts => stmts@[i as int]));
            out = self.infer_stmt(&stmts[i]);
            assert(stmts@.take(i + 1).drop_last() =~= stmts@.take(i as int));
            assert(stmts@.take(i + 1).last() == stmts@[i as int]);
            i += 1;
        }
        assert(stmts@.take(i as int) =~= stmts@);
        out
    }

    /// A statement, and the value it leaves a block with when it is the last.
    pub fn infer_stmt(&mut self, s: &Stmt) -> (r: Type)
        ensures
            (r, final(self)@) == infer_spec::infer_stmt(old(self)@, *s),
        decreases s, 3nat,
    {
        match &s.kind {
            StmtKind::Var { name, annotation, init } => {
                self.infer_var(name, annotation, init, s.range);
                Type::Unit
            },
            StmtKind::Assign { name, op, value } => {
                let t = self.infer_opt(value);
                self.assign(name, op, &t, span_of(value, s.range), s.range);
                Type::Unit
            },
            StmtKind::PlaceAssign(p) => {
                let target = self.infer_opt(&p.target);
                let value = self.infer_opt(&p.value);
                self.store_place(
                    &p.target,
                    p.op,
                    &target,
                    &value,
                    span_of(&p.value, s.range),
                    s.range,
                );
                Type::Unit
            },
            StmtKind::Expr(e) => self.infer_or_unit(e),
            StmtKind::Other => {
                self.report(
                    s.range,
                    DiagCode::NestedFunction,
                    text("functions and types are declared at the top level"),
                );
                Type::Unit
            },
        }
    }

    fn infer_var(
        &mut self,
        name: &Option<Ident>,
        annotation: &Option<TypeExpr>,
        init: &Option<Box<Expr>>,
        range: Span,
    )
        ensures
            final(self)@ == infer_spec::infer_var(old(self)@, *name, *annotation, *init, range),
        decreases init, 1nat,
    {
        let got = self.infer_opt(init);
        let t = match annotation {
            None => got,
            Some(a) => {
                let want = self.type_of(a);
                self.expect(&want, &got, span_of(init, range));
                want
            },
        };
        if let Some(n) = name {
            self.bind_var(n, &t, is_closure(init), range);
        }
    }

    fn is_assigned(&self, name: &String) -> (r: bool)
        ensures
            r == infer_spec::among(self@.assigned, name@),
    {
        let mut i: usize = 0;
        while i < self.assigned.len()
            invariant
                i <= self.assigned@.len(),
                forall|j: int| 0 <= j < i ==> (#[trigger] self@.assigned[j]) != name@,
            decreases self.assigned@.len() - i,
        {
            if self.assigned[i] == *name {
                assert(self@.assigned[i as int] == name@);
                return true;
            }
            assert(self@.assigned[i as int] == self.assigned@[i as int]@);
            i += 1;
        }
        false
    }

    fn bind_var(&mut self, name: &Ident, t: &Type, closure: bool, range: Span)
        ensures
            final(self)@ == infer_spec::bind_var(old(self)@, *name, *t, closure, range),
    {
        let open = closure && !self.is_assigned(&name.text);
        let declared: Option<SymbolId> = match self.decls.get(name.range) {
            Some(id) => Some(*id),
            None => None,
        };
        match declared {
            Some(id) => {
                self.enter_top(name, id, t, range);
                if open {
                    self.generalize(id, t, range);
                }
            },
            None => {
                let n: usize = self.names.len();
                self.declare_mono(name, SymbolKind::Var, t);
                if open && n < u32::MAX as usize {
                    self.generalize(SymbolId(n as u32), t, range);
                }
            },
        }
    }

    pub(crate) fn declared_type(&self, id: SymbolId) -> (r: Option<Type>)
        ensures
            r == infer_spec::declared_type(self@, id),
    {
        match self.names.get(id) {
            Some(s) => match &s.scheme {
                Some(scheme) => Some(scheme.body.dup()),
                None => None,
            },
            None => None,
        }
    }

    fn enter_top(&mut self, name: &Ident, id: SymbolId, t: &Type, range: Span)
        ensures
            final(self)@ == infer_spec::enter_top(old(self)@, *name, id, *t, range),
    {
        if let Some(d) = self.declared_type(id) {
            self.expect(&d, t, range);
        }
        self.set_scheme(id, Scheme::monotype(t.dup()));
        let ghost before = self@.env;
        self.env.push((text(&name.text), id));
        assert(self@.env =~= before.push((name.text@, id)));
    }

    fn assign(
        &mut self,
        name: &Option<Ident>,
        op: &Option<AssignToken>,
        value: &Type,
        at_value: Span,
        whole: Span,
    )
        ensures
            final(self)@ == infer_spec::assign(
                old(self)@,
                *name,
                *op,
                *value,
                at_value,
                whole,
            ),
    {
        let Some(n) = name else {
            return;
        };
        let Some(id) = self.in_scope(&n.text) else {
            self.unknown_name(n);
            return;
        };
        self.set_reassigned(id);
        let t = self.use_symbol(id, n.range);
        self.refer(n.range, id, &t);
        self.store(store_op(op), &t, value, at_value, whole);
    }

    fn subscripted(&self, e: &Option<Box<Expr>>) -> (r: Option<Type>)
        ensures
            r == (match infer_spec::subscripted(self@, *e) {
                Some(t) => Some(self@.db.resolve(t)),
                None => None,
            }),
    {
        if let Some(e) = e {
            if let ExprKind::Index { receiver, .. } = &e.kind {
                if let Some(r) = receiver {
                    if let Some(t) = self.expr_types.get(r.key()) {
                        return Some(self.db.deep_resolve(t));
                    }
                }
            }
        }
        None
    }

    fn index_types(&self, es: &Vec<Expr>) -> (r: Vec<Type>)
        ensures
            r@ == infer_spec::index_types(self@, es@),
    {
        let mut out: Vec<Type> = Vec::new();
        let mut i: usize = 0;
        while i < es.len()
            invariant
                i <= es@.len(),
                out@ =~= infer_spec::index_types(self@, es@).take(i as int),
            decreases es@.len() - i,
        {
            let t = match self.expr_types.get(es[i].key()) {
                Some(t) => t.dup(),
                None => Type::Unit,
            };
            assert(infer_spec::index_types(self@, es@)[i as int] == t);
            out.push(t);
            i += 1;
        }
        assert(out@ =~= infer_spec::index_types(self@, es@));
        out
    }

    fn store_args(&self, place: &Option<Box<Expr>>, value: &Type) -> (r: Vec<Type>)
        ensures
            r@ == infer_spec::store_args(self@, *place, *value),
    {
        if let Some(e) = place {
            if let ExprKind::Index { indices, .. } = &e.kind {
                let mut out = self.index_types(indices);
                out.push(value.dup());
                return out;
            }
        }
        let r = vec![value.dup()];
        assert(r@ =~= seq![*value]);
        r
    }

    fn store_question(
        &self,
        place: &Option<Box<Expr>>,
        op: PlaceAssignOp,
        t: &Type,
        value: &Type,
        whole: Span,
    ) -> (r: Deferred)
        ensures
            r@ == infer_spec::store_question(self@, *place, op, *t, *value, whole),
    {
        let args = self.store_args(place, value);
        Deferred {
            asked: Asked::Store,
            name: text(store_row(op)),
            at: span_of(place, whole),
            receiver: t.dup(),
            args: TypeList::from_vec(&args),
            result: Type::Unit,
        }
    }

    fn store_through(
        &mut self,
        place: &Option<Box<Expr>>,
        op: PlaceAssignOp,
        t: &Type,
        value: &Type,
        whole: Span,
    )
        ensures
            final(self)@ == infer_spec::store_through(
                old(self)@,
                *place,
                op,
                *t,
                *value,
                whole,
            ),
    {
        match t {
            Type::Var(_) => {
                let ghost before = self@.deferred;
                let d = self.store_question(place, op, t, value, whole);
                self.deferred.push(d);
                assert(self@.deferred =~= before.push(d@));
            },
            Type::Never => {},
            _ => {
                if is_update(op) {
                    let d = self.store_question(place, op, t, value, whole);
                    self.answer_store(&d, t);
                } else if t.same(&text_type()) {
                    self.refuse(Capability::Indexable, &text_type(), whole);
                } else if let Some(n) = index_count(place) {
                    let at = span_of(place, whole);
                    self.note_subscript(at, "[]=", n, t, &Type::Unit);
                }
            },
        }
    }

    fn store_place(
        &mut self,
        place: &Option<Box<Expr>>,
        op: PlaceAssignOp,
        target: &Type,
        value: &Type,
        at_value: Span,
        whole: Span,
    )
        ensures
            final(self)@ == infer_spec::store_place(
                old(self)@,
                *place,
                op,
                *target,
                *value,
                at_value,
                whole,
            ),
    {
        match place_kind(place) {
            PlaceKind::Field => {
                if is_update(op) {
                    let t = self.db.deep_resolve(target);
                    self.undefined(&t, whole);
                }
            },
            PlaceKind::Subscript => {
                if let Some(t) = self.subscripted(place) {
                    self.store_through(place, op, &t, value, whole);
                }
            },
            PlaceKind::NotAPlace => {
                self.report(
                    span_of(place, whole),
                    DiagCode::NotAnAssignmentTarget,
                    text("nothing is stored here"),
                );
            },
        }
        if !is_update(op) {
            self.store(place_op(op), target, value, at_value, whole);
        }
    }
}

} // verus!
