//! Inference over whole files.
use vstd::prelude::*;

use crate::ast::{
    EnumItem, FieldDecl, FnItem, Ident, StmtKind, StructItem, TopLevel, VariantDecl,
};
use crate::infer::{env_view, Inferer};
use crate::infer_expr::block_span;
use crate::infer_spec;
use crate::infer_spec::Inf;
use crate::source::{text, text3, DiagCode};
use crate::symbol::{SymbolId, SymbolKind};
use crate::typedb::{
    EnumDef, FieldDef, FieldView, RecordDef, VariantDef, VariantView,
};
use crate::types::{EnumDefId, RecordDefId, Type, TypeList};

verus! {

pub open spec fn field_views(fs: Seq<FieldDef>) -> Seq<FieldView> {
    fs.map_values(|f: FieldDef| f@)
}

pub open spec fn variant_views(vs: Seq<VariantDef>) -> Seq<VariantView> {
    vs.map_values(|v: VariantDef| v@)
}

fn has_field(fs: &Vec<FieldDef>, name: &String) -> (r: bool)
    ensures
        r == infer_spec::among(infer_spec::field_view_names(field_views(fs@)), name@),
{
    let ghost names = infer_spec::field_view_names(field_views(fs@));
    let mut i: usize = 0;
    while i < fs.len()
        invariant
            i <= fs@.len(),
            names == infer_spec::field_view_names(field_views(fs@)),
            forall|j: int| 0 <= j < i ==> (#[trigger] names[j]) != name@,
        decreases fs@.len() - i,
    {
        assert(names[i as int] == fs@[i as int].name@);
        if fs[i].name == *name {
            return true;
        }
        i += 1;
    }
    false
}

fn has_variant(vs: &Vec<VariantDef>, name: &String) -> (r: bool)
    ensures
        r == infer_spec::among(infer_spec::variant_view_names(variant_views(vs@)), name@),
{
    let ghost names = infer_spec::variant_view_names(variant_views(vs@));
    let mut i: usize = 0;
    while i < vs.len()
        invariant
            i <= vs@.len(),
            names == infer_spec::variant_view_names(variant_views(vs@)),
            forall|j: int| 0 <= j < i ==> (#[trigger] names[j]) != name@,
        decreases vs@.len() - i,
    {
        assert(names[i as int] == vs@[i as int].name@);
        if vs[i].name == *name {
            return true;
        }
        i += 1;
    }
    false
}

pub(crate) fn variant_type(payload: &Vec<Type>, ty: &Type) -> (r: Type)
    ensures
        r == infer_spec::variant_type(payload@, *ty),
{
    if payload.len() == 0 {
        ty.dup()
    } else {
        Type::Func(TypeList::from_vec(payload), Box::new(ty.dup()))
    }
}

/// The name a top-level statement binds.
fn top_name(item: &TopLevel) -> (r: Option<&Ident>)
    ensures
        match infer_spec::top_name(*item) {
            Some(n) => r matches Some(x) && *x == n,
            None => r is None,
        },
{
    match item {
        TopLevel::Stmt(s) => match &s.kind {
            StmtKind::Var { name, .. } => match name {
                Some(n) => Some(n),
                None => None,
            },
            _ => None,
        },
        _ => None,
    }
}

impl Inferer {
    fn declared_twice(&mut self, name: &Ident)
        ensures
            final(self)@ == infer_spec::declared_twice(old(self)@, *name),
    {
        let message = text3("`", &name.text, "` is declared twice");
        self.report(name.range, DiagCode::DuplicateDeclaration, message);
    }

    fn check_type_name(&mut self, name: &Ident)
        ensures
            final(self)@ == infer_spec::check_type_name(old(self)@, *name),
    {
        if self.type_named(&name.text).is_some() {
            self.declared_twice(name);
        }
    }

    fn declare_type_name(&mut self, name: &Ident, kind: SymbolKind, ty: &Type)
        ensures
            final(self)@ == infer_spec::declare_type_name(old(self)@, *name, kind, *ty),
    {
        let n: usize = self.names.len();
        self.declare_mono(name, kind, ty);
        if n < u32::MAX as usize {
            let ghost longer = self@.env;
            let _ = self.env.pop();
            assert(self@.env =~= longer.drop_last());
            assert(longer.drop_last() =~= old(self)@.env);
        }
    }

    fn declare_struct(&mut self, name: &Ident)
        ensures
            final(self)@ == infer_spec::declare_struct(old(self)@, *name),
    {
        self.check_type_name(name);
        let n: usize = self.db.records.len();
        if n < u32::MAX as usize {
            let ghost s1 = self@;
            let def = RecordDef {
                name: Some(text(&name.text)),
                params: Vec::new(),
                fields: Vec::new(),
            };
            assert(def@.params =~= Seq::empty());
            assert(def@.fields =~= Seq::empty());
            self.db.records.push(def);
            assert(self@.db.records =~= s1.db.records.push(def@));
            let ty = Type::Record(RecordDefId(n as u32), TypeList::Nil);
            self.declare_type_name(name, SymbolKind::Struct, &ty);
            self.types.push((text(&name.text), ty));
            assert(self@.types =~= s1.types.push((name.text@, ty)));
        }
    }

    fn declare_enum(&mut self, name: &Ident)
        ensures
            final(self)@ == infer_spec::declare_enum(old(self)@, *name),
    {
        self.check_type_name(name);
        let n: usize = self.db.enums.len();
        if n < u32::MAX as usize {
            let ghost s1 = self@;
            let def = EnumDef { name: Some(text(&name.text)), params: Vec::new(), variants: Vec::new() };
            assert(def@.params =~= Seq::empty());
            assert(def@.variants =~= Seq::empty());
            self.db.enums.push(def);
            assert(self@.db.enums =~= s1.db.enums.push(def@));
            let ty = Type::Enum(EnumDefId(n as u32), TypeList::Nil);
            self.declare_type_name(name, SymbolKind::Enum, &ty);
            self.types.push((text(&name.text), ty));
            assert(self@.types =~= s1.types.push((name.text@, ty)));
        }
    }

    fn declare_types(&mut self, items: &Vec<TopLevel>)
        ensures
            final(self)@ == infer_spec::declare_types(old(self)@, items@),
    {
        let mut i: usize = 0;
        while i < items.len()
            invariant
                i <= items@.len(),
                self@ == infer_spec::declare_types(old(self)@, items@.take(i as int)),
            decreases items@.len() - i,
        {
            assert(items@.take(i + 1).drop_last() =~= items@.take(i as int));
            assert(items@.take(i + 1).last() == items@[i as int]);
            match &items[i] {
                TopLevel::Struct(s) => {
                    if let Some(n) = &s.name {
                        self.declare_struct(n);
                    }
                },
                TopLevel::Enum(e) => {
                    if let Some(n) = &e.name {
                        self.declare_enum(n);
                    }
                },
                _ => {},
            }
            i += 1;
        }
        assert(items@.take(i as int) =~= items@);
    }

    fn struct_fields(&mut self, fs: &Vec<FieldDecl>) -> (r: Vec<FieldDef>)
        ensures
            (field_views(r@), final(self)@) == infer_spec::struct_fields(old(self)@, fs@),
    {
        let mut out: Vec<FieldDef> = Vec::new();
        let mut i: usize = 0;
        assert(field_views(out@) =~= Seq::empty());
        while i < fs.len()
            invariant
                i <= fs@.len(),
                (field_views(out@), self@) == infer_spec::struct_fields(
                    old(self)@,
                    fs@.take(i as int),
                ),
            decreases fs@.len() - i,
        {
            assert(fs@.take(i + 1).drop_last() =~= fs@.take(i as int));
            assert(fs@.take(i + 1).last() == fs@[i as int]);
            let ty = self.annotated(&fs[i].ty);
            if let Some(n) = &fs[i].name {
                if has_field(&out, &n.text) {
                    let message = text3("field `", &n.text, "` is declared twice");
                    self.report(n.range, DiagCode::DuplicateMember, message);
                } else {
                    let ghost before = field_views(out@);
                    out.push(FieldDef { name: text(&n.text), ty });
                    assert(field_views(out@) =~= before.push(FieldView { name: n.text@, ty }));
                }
            }
            i += 1;
        }
        assert(fs@.take(i as int) =~= fs@);
        out
    }

    fn enum_variants(&mut self, vs: &Vec<VariantDecl>, ty: &Type) -> (r: Vec<VariantDef>)
        ensures
            (variant_views(r@), final(self)@) == infer_spec::enum_variants(old(self)@, vs@, *ty),
    {
        let mut out: Vec<VariantDef> = Vec::new();
        let mut i: usize = 0;
        assert(variant_views(out@) =~= Seq::empty());
        while i < vs.len()
            invariant
                i <= vs@.len(),
                (variant_views(out@), self@) == infer_spec::enum_variants(
                    old(self)@,
                    vs@.take(i as int),
                    *ty,
                ),
            decreases vs@.len() - i,
        {
            assert(vs@.take(i + 1).drop_last() =~= vs@.take(i as int));
            assert(vs@.take(i + 1).last() == vs@[i as int]);
            let payload = self.types_of(&vs[i].payload);
            if let Some(n) = &vs[i].name {
                if has_variant(&out, &n.text) {
                    let message = text3("variant `", &n.text, "` is declared twice");
                    self.report(n.range, DiagCode::DuplicateMember, message);
                } else {
                    let ghost before = variant_views(out@);
                    let made = variant_type(&payload, ty);
                    self.declare_mono(n, SymbolKind::EnumVariant, &made);
                    let list = TypeList::from_vec(&payload);
                    out.push(VariantDef { name: text(&n.text), payload: list });
                    assert(variant_views(out@) =~= before.push(
                        VariantView { name: n.text@, payload: list },
                    ));
                }
            }
            i += 1;
        }
        assert(vs@.take(i as int) =~= vs@);
        out
    }

    pub(crate) fn set_fields(&mut self, ty: &Type, fields: Vec<FieldDef>)
        ensures
            final(self)@ == infer_spec::set_fields(old(self)@, *ty, field_views(fields@)),
    {
        if let Type::Record(d, _) = ty {
            let i: usize = d.0 as usize;
            if i < self.db.records.len() {
                assert(self.db@.records[i as int] == self.db.records@[i as int]@);
                self.db.records[i].fields = fields;
                assert(self@.db.records =~= infer_spec::set_fields(
                    old(self)@,
                    *ty,
                    field_views(fields@),
                ).db.records);
            }
        }
    }

    pub(crate) fn set_variants(&mut self, ty: &Type, variants: Vec<VariantDef>)
        ensures
            final(self)@ == infer_spec::set_variants(old(self)@, *ty, variant_views(variants@)),
    {
        if let Type::Enum(d, _) = ty {
            let i: usize = d.0 as usize;
            if i < self.db.enums.len() {
                assert(self.db@.enums[i as int] == self.db.enums@[i as int]@);
                self.db.enums[i].variants = variants;
                assert(self@.db.enums =~= infer_spec::set_variants(
                    old(self)@,
                    *ty,
                    variant_views(variants@),
                ).db.enums);
            }
        }
    }

    fn define_struct(&mut self, s: &StructItem)
        ensures
            final(self)@ == infer_spec::define_type(old(self)@, TopLevel::Struct(*s)),
    {
        if let Some(n) = &s.name {
            if let Some(ty) = self.type_named(&n.text) {
                let fields = self.struct_fields(&s.fields);
                self.set_fields(&ty, fields);
            }
        }
    }

    fn define_enum(&mut self, e: &EnumItem)
        ensures
            final(self)@ == infer_spec::define_type(old(self)@, TopLevel::Enum(*e)),
    {
        if let Some(n) = &e.name {
            if let Some(ty) = self.type_named(&n.text) {
                let variants = self.enum_variants(&e.variants, &ty);
                self.set_variants(&ty, variants);
            }
        }
    }

    fn define_types(&mut self, items: &Vec<TopLevel>)
        ensures
            final(self)@ == infer_spec::define_types(old(self)@, items@),
    {
        let mut i: usize = 0;
        while i < items.len()
            invariant
                i <= items@.len(),
                self@ == infer_spec::define_types(old(self)@, items@.take(i as int)),
            decreases items@.len() - i,
        {
            assert(items@.take(i + 1).drop_last() =~= items@.take(i as int));
            assert(items@.take(i + 1).last() == items@[i as int]);
            match &items[i] {
                TopLevel::Struct(s) => self.define_struct(s),
                TopLevel::Enum(e) => self.define_enum(e),
                _ => {},
            }
            i += 1;
        }
        assert(items@.take(i as int) =~= items@);
    }

    fn names_fn(&self, name: &String) -> (r: bool)
        ensures
            r == infer_spec::names_fn(self@, name@),
    {
        match self.in_scope(name) {
            Some(id) => match self.kind_of(id) {
                Some(kind) => kind == SymbolKind::Fn,
                None => false,
            },
            None => false,
        }
    }

    fn declare_fn(&mut self, f: &FnItem)
        ensures
            final(self)@ == infer_spec::declare_fn(old(self)@, TopLevel::Fn(*f)),
    {
        if let Some(n) = &f.name {
            if self.names_fn(&n.text) {
                self.declared_twice(n);
            }
            let ps = self.param_types(&f.params);
            let r = self.annotated(&f.result);
            let ty = Type::Func(TypeList::from_vec(&ps), Box::new(r));
            self.declare_mono(n, SymbolKind::Fn, &ty);
        }
    }

    fn declare_fns(&mut self, items: &Vec<TopLevel>)
        ensures
            final(self)@ == infer_spec::declare_fns(old(self)@, items@),
    {
        let mut i: usize = 0;
        while i < items.len()
            invariant
                i <= items@.len(),
                self@ == infer_spec::declare_fns(old(self)@, items@.take(i as int)),
            decreases items@.len() - i,
        {
            assert(items@.take(i + 1).drop_last() =~= items@.take(i as int));
            assert(items@.take(i + 1).last() == items@[i as int]);
            match &items[i] {
                TopLevel::Fn(f) => self.declare_fn(f),
                _ => {},
            }
            i += 1;
        }
        assert(items@.take(i as int) =~= items@);
    }

    fn declare_top(&mut self, name: &Ident)
        ensures
            final(self)@ == infer_spec::declare_top(old(self)@, *name),
    {
        let t = self.fresh();
        let ghost s1 = self@;
        let n: usize = self.names.len();
        if n < u32::MAX as usize {
            self.declare_mono(name, SymbolKind::Var, &t);
            let ghost longer = self@.env;
            let _ = self.env.pop();
            assert(self@.env =~= longer.drop_last());
            assert(longer.drop_last() =~= s1.env);
            let id = SymbolId(n as u32);
            self.tops.push((text(&name.text), id));
            assert(self@.tops =~= s1.tops.push((name.text@, id)));
        }
    }

    fn declare_tops(&mut self, items: &Vec<TopLevel>)
        ensures
            final(self)@ == infer_spec::declare_tops(old(self)@, items@),
    {
        let mut i: usize = 0;
        while i < items.len()
            invariant
                i <= items@.len(),
                self@ == infer_spec::declare_tops(old(self)@, items@.take(i as int)),
            decreases items@.len() - i,
        {
            assert(items@.take(i + 1).drop_last() =~= items@.take(i as int));
            assert(items@.take(i + 1).last() == items@[i as int]);
            if let Some(n) = top_name(&items[i]) {
                self.declare_top(n);
            }
            i += 1;
        }
        assert(items@.take(i as int) =~= items@);
    }

    /// Brings the first `n` top-level bindings into scope.
    fn enter_tops(&mut self, n: usize)
        ensures
            final(self)@ == (Inf {
                env: old(self)@.env + infer_spec::first_tops(old(self)@, n as nat),
                ..old(self)@
            }),
    {
        let ghost s0 = self@;
        let ghost shown = infer_spec::first_tops(s0, n as nat);
        let mut i: usize = 0;
        assert(s0.env + shown.take(0) =~= s0.env);
        while i < n && i < self.tops.len()
            invariant
                i <= n,
                i <= self.tops@.len(),
                shown == infer_spec::first_tops(s0, n as nat),
                s0.tops == env_view(self.tops@),
                self@ == (Inf { env: s0.env + shown.take(i as int), ..s0 }),
            decreases n - i,
        {
            let name = text(&self.tops[i].0);
            let id = self.tops[i].1;
            let ghost before = self@.env;
            self.env.push((name, id));
            assert(self@.env =~= before.push((name@, id)));
            assert(shown[i as int] == s0.tops[i as int]);
            assert(s0.env + shown.take(i + 1) =~= before.push(shown[i as int]));
            i += 1;
        }
        assert(shown.take(i as int) =~= shown);
    }

    fn infer_loose(&mut self, f: &FnItem)
        ensures
            final(self)@ == infer_spec::infer_loose(old(self)@, *f),
    {
        let ts = self.param_types(&f.params);
        let r = self.annotated(&f.result);
        let ghost outer = self@;
        let n: usize = self.env.len();
        let scope = self.scope;
        let saved = self.enter_fn(r.dup());
        self.bind_params(&f.params, &ts);
        let t = self.infer_opt_block(&f.body);
        self.expect(&r, &t, block_span(&f.body, f.range));
        self.leave_fn(saved, n, scope, Ghost(outer));
    }

    fn infer_fn(&mut self, f: &FnItem, id: SymbolId)
        ensures
            final(self)@ == infer_spec::infer_fn(old(self)@, *f, id),
    {
        if let Some(ty) = self.declared_type(id) {
            if let Type::Func(ps, r) = &ty {
                let ghost outer = self@;
                let n: usize = self.env.len();
                let scope = self.scope;
                let saved = self.enter_fn(r.dup());
                let ts = ps.to_vec();
                self.bind_params(&f.params, &ts);
                let t = self.infer_opt_block(&f.body);
                self.expect(r, &t, block_span(&f.body, f.range));
                self.leave_fn(saved, n, scope, Ghost(outer));
                self.generalize(id, &ty, f.range);
                return;
            }
        }
        self.infer_loose(f);
    }

    fn fn_symbol(&self, f: &FnItem) -> (r: Option<SymbolId>)
        ensures
            r == infer_spec::fn_symbol(self@, *f),
    {
        if let Some(name) = &f.name {
            if let Some(id) = self.decls.get(name.range) {
                return Some(*id);
            }
        }
        None
    }

    fn infer_fn_named(&mut self, f: &FnItem, n: usize)
        ensures
            final(self)@ == infer_spec::infer_fn_item(old(self)@, TopLevel::Fn(*f), n as nat),
    {
        reveal(infer_spec::infer_fn_item);
        let depth: usize = self.env.len();
        let scope = self.scope;
        let found = self.fn_symbol(f);
        self.enter_tops(n);
        if let Some(id) = found {
            self.inside = Some((id, f.range));
            self.infer_fn(f, id);
        } else {
            self.infer_loose(f);
        }
        self.inside = None;
        self.leave(depth, scope);
    }

    fn infer_fn_item(&mut self, item: &TopLevel, n: usize)
        ensures
            final(self)@ == infer_spec::infer_fn_item(old(self)@, *item, n as nat),
    {
        reveal(infer_spec::infer_fn_item);
        match item {
            TopLevel::Fn(f) => self.infer_fn_named(f, n),
            _ => {},
        }
    }

    #[verifier::spinoff_prover]
    fn infer_fns(&mut self, items: &Vec<TopLevel>)
        ensures
            final(self)@ == infer_spec::infer_fns(old(self)@, items@),
    {
        let mut n: usize = 0;
        let mut i: usize = 0;
        while i < items.len()
            invariant
                i <= items@.len(),
                n <= i,
                n == infer_spec::count_tops(items@.take(i as int)),
                self@ == infer_spec::infer_fns(old(self)@, items@.take(i as int)),
            decreases items@.len() - i,
        {
            assert(items@.take(i + 1).drop_last() =~= items@.take(i as int));
            assert(items@.take(i + 1).last() == items@[i as int]);
            let ghost before = self@;
            self.infer_fn_item(&items[i], n);
            assert(infer_spec::infer_fns(old(self)@, items@.take(i + 1))
                == infer_spec::infer_fn_item(before, items@[i as int], n as nat));
            if top_name(&items[i]).is_some() {
                n += 1;
            }
            i += 1;
        }
        assert(items@.take(i as int) =~= items@);
    }

    fn infer_top(&mut self, items: &Vec<TopLevel>)
        ensures
            final(self)@ == infer_spec::infer_top(old(self)@, items@),
    {
        let mut i: usize = 0;
        while i < items.len()
            invariant
                i <= items@.len(),
                self@ == infer_spec::infer_top(old(self)@, items@.take(i as int)),
            decreases items@.len() - i,
        {
            assert(items@.take(i + 1).drop_last() =~= items@.take(i as int));
            assert(items@.take(i + 1).last() == items@[i as int]);
            match &items[i] {
                TopLevel::Stmt(s) => {
                    let _ = self.infer_stmt(s);
                },
                _ => {},
            }
            i += 1;
        }
        assert(items@.take(i as int) =~= items@);
    }

    /// A whole file: its types, its bindings, its functions' names, its
    /// functions, and then what it runs.
    pub fn infer_file(&mut self, items: &Vec<TopLevel>)
        ensures
            final(self)@ == infer_spec::infer_file(old(self)@, items@),
    {
        self.declare_types(items);
        self.define_types(items);
        self.check_cycles(items);
        self.declare_tops(items);
        self.declare_fns(items);
        self.infer_fns(items);
        self.infer_top(items);
        let n: usize = self.deferred.len();
        self.resettle_times(n);
        self.resettle();
        self.report_outer();
    }
}

} // verus!
