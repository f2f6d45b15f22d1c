//! What the code generator needs of type checking: the names in scope, the
//! fields of the structs declared, and the type of an expression.
use vstd::prelude::*;
use vstd::string::StringExecFns;
use crate::lexer::span::{Span, zero_span};
use crate::lexer::token::{PrimitiveType, Token};
use crate::parser::expression::Expression;
use crate::parser::statement::Statement;
use crate::parser::types::Type;
use crate::typechecker::env::{
    declared_in, resolve, spec_define, Env, EntityView, ScopeView,
};
use crate::typechecker::error::BindingKind;
use crate::typechecker::types::{Ty, TyView, ty_view};

verus! {

/// The fields of a declared struct, in order, with their types.
pub struct StructSig {
    pub name: String,
    pub fields: Vec<(String, Ty)>,
}

/// The fields of a declared struct, as mathematical values.
pub type StructView = (Seq<char>, Seq<(Seq<char>, TyView)>);

pub open spec fn struct_view(s: StructSig) -> StructView {
    (s.name@, Seq::new(s.fields@.len(), |i: int| (s.fields@[i].0@, s.fields@[i].1@)))
}

/// The state the checker carries: scopes of names and declared structs.
pub struct CheckerView {
    pub env: Seq<ScopeView>,
    pub structs: Seq<StructView>,
}

/// Scopes of names and the structs declared so far.
pub struct Checker {
    pub env: Env,
    pub structs: Vec<StructSig>,
}

impl View for Checker {
    type V = CheckerView;

    open spec fn view(&self) -> CheckerView {
        CheckerView {
            env: self.env@,
            structs: Seq::new(self.structs@.len(), |i: int| struct_view(self.structs@[i])),
        }
    }
}

/// The type a written type stands for: the primitive types, and a one-segment
/// name as the struct of that name; everything else is unknown.
pub open spec fn spec_resolve_type(t: Type) -> TyView {
    match t {
        Type::Primitive(PrimitiveType::Int) => TyView::Int,
        Type::Primitive(PrimitiveType::Float) => TyView::Float,
        Type::Primitive(PrimitiveType::Bool) => TyView::Bool,
        Type::Primitive(PrimitiveType::String) => TyView::String,
        Type::Named(path) => if path.segments@.len() == 1 {
            TyView::Struct(path.segments@[0]@)
        } else {
            TyView::Unknown
        },
        _ => TyView::Unknown,
    }
}

/// The type of field `field` in the fields of a struct: the last one so named.
pub open spec fn find_field(fields: Seq<(Seq<char>, TyView)>, field: Seq<char>) -> Option<TyView>
    decreases fields.len(),
{
    if fields.len() == 0 {
        None
    } else if fields.last().0 == field {
        Some(fields.last().1)
    } else {
        find_field(fields.drop_last(), field)
    }
}

/// The fields of the struct named `name`: the one declared last.
pub open spec fn find_struct(structs: Seq<StructView>, name: Seq<char>) -> Option<
    Seq<(Seq<char>, TyView)>,
>
    decreases structs.len(),
{
    if structs.len() == 0 {
        None
    } else if structs.last().0 == name {
        Some(structs.last().1)
    } else {
        find_struct(structs.drop_last(), name)
    }
}

/// Operators whose result is a truth value.
pub open spec fn yields_bool(t: Token) -> bool {
    match t {
        Token::Equals | Token::NotEquals | Token::Less | Token::Greater | Token::LessOrEquals
        | Token::GreaterOrEquals | Token::LogicAnd | Token::LogicOr => true,
        _ => false,
    }
}

/// The type of an expression: literals have their own type; a name has the
/// type it is bound with; `!` and comparisons give `bool`; other operators give
/// the type of their (left) operand; a call gives the return type of what is
/// called; a struct literal gives its struct; a field gives the type declared
/// for it. Everything else is unknown.
pub open spec fn spec_infer(ck: CheckerView, e: Expression) -> TyView
    decreases e,
{
    match e {
        Expression::IntLiteral { .. } => TyView::Int,
        Expression::FloatLiteral { .. } => TyView::Float,
        Expression::BoolLiteral { .. } => TyView::Bool,
        Expression::StringLiteral { .. } => TyView::String,
        Expression::Identifier { name, .. } => match resolve(ck.env, name@) {
            Some(info) => info.ty,
            None => TyView::Unknown,
        },
        Expression::StructLiteral { name, .. } => TyView::Struct(name@),
        Expression::Prefix { operator, right, .. } => if operator is LogicNot {
            TyView::Bool
        } else {
            spec_infer(ck, *right)
        },
        Expression::Infix { left, operator, .. } => if yields_bool(operator) {
            TyView::Bool
        } else {
            spec_infer(ck, *left)
        },
        Expression::Postfix { left, .. } => spec_infer(ck, *left),
        Expression::Call { function, .. } => match spec_infer(ck, *function) {
            TyView::Fn { ret, .. } => *ret,
            _ => TyView::Unknown,
        },
        Expression::Field { object, name, .. } => match spec_infer(ck, *object) {
            TyView::Struct(s) => match find_struct(ck.structs, s) {
                Some(fields) => match find_field(fields, name@) {
                    Some(t) => t,
                    None => TyView::Unknown,
                },
                None => TyView::Unknown,
            },
            _ => TyView::Unknown,
        },
        _ => TyView::Unknown,
    }
}

/// The state after binding `name` in the innermost scope; a name already bound
/// there keeps its binding.
pub open spec fn spec_defined(
    ck: CheckerView,
    name: Seq<char>,
    ty: TyView,
    kind: BindingKind,
    span: Span,
) -> CheckerView {
    if ck.env.len() > 0 && declared_in(ck.env.last(), name) {
        ck
    } else {
        CheckerView {
            env: spec_define(ck.env, name, EntityView { ty, kind, span }),
            structs: ck.structs,
        }
    }
}

/// The state after opening a scope.
pub open spec fn ck_push(ck: CheckerView) -> CheckerView {
    CheckerView { env: ck.env.push(Seq::empty()), structs: ck.structs }
}

/// The state after closing the innermost scope.
pub open spec fn ck_pop(ck: CheckerView) -> CheckerView {
    CheckerView {
        env: if ck.env.len() == 0 {
            ck.env
        } else {
            ck.env.drop_last()
        },
        structs: ck.structs,
    }
}

/// The fields of a struct declaration with their types resolved.
pub open spec fn resolved_fields(fields: Seq<crate::parser::statement::FunParam>) -> Seq<
    (Seq<char>, TyView),
> {
    Seq::new(fields.len(), |i: int| (fields[i].name@, spec_resolve_type(fields[i].param_type)))
}

/// The state after the struct declarations among `decls` are recorded, in order.
pub open spec fn spec_collect(ck: CheckerView, decls: Seq<Statement>) -> CheckerView
    decreases decls.len(),
{
    if decls.len() == 0 {
        ck
    } else {
        let before = spec_collect(ck, decls.drop_last());
        match decls.last() {
            Statement::Struct { name, fields, .. } => CheckerView {
                env: before.env,
                structs: before.structs.push((name@, resolved_fields(fields@))),
            },
            _ => before,
        }
    }
}

/// The type of the built-in `print` and `println`.
pub open spec fn print_ty() -> TyView {
    TyView::Fn { params: seq![TyView::Unknown], ret: Box::new(TyView::Unit) }
}

/// The type of the built-in `scanln`.
pub open spec fn scanln_ty() -> TyView {
    TyView::Fn { params: Seq::empty(), ret: Box::new(TyView::String) }
}

impl Default for Checker {
    fn default() -> (c: Checker)
        ensures
            c@.env == Seq::<ScopeView>::empty(),
            c@.structs == Seq::<StructView>::empty(),
    {
        let c = Checker { env: Env::default(), structs: Vec::new() };
        assert(c@.structs =~= Seq::<StructView>::empty());
        c
    }
}

impl Checker {
    /// Binds `name` in the innermost scope, unless it is bound there already.
    pub fn defined(&mut self, name: String, ty: Ty, kind: BindingKind, span: Span)
        ensures
            final(self)@ == spec_defined(old(self)@, name@, ty@, kind, span),
    {
        if !self.env.defined_here(&name) {
            let ghost tyv = ty@;
            let ghost n = name@;
            let _ = self.env.define(name, ty, kind, &span);
            assert(self@.structs =~= old(self)@.structs);
        }
    }

    /// Binds the built-in functions `print`, `println` and `scanln`.
    pub fn define_builtins(&mut self)
        ensures
            final(self)@ == spec_defined(
                spec_defined(
                    spec_defined(old(self)@, "print"@, print_ty(), BindingKind::Const, zero_span()),
                    "println"@,
                    print_ty(),
                    BindingKind::Const,
                    zero_span(),
                ),
                "scanln"@,
                scanln_ty(),
                BindingKind::Const,
                zero_span(),
            ),
    {
        let mut p: Vec<Ty> = Vec::new();
        p.push(Ty::Unknown);
        let ghost pv = p@;
        assert(pv.len() == 1 && pv[0] == Ty::Unknown);
        let print = Ty::Fn { params: p, ret: Box::new(Ty::Unit) };
        assert(print is Fn);
        assert(print->Fn_params@ == pv);
        assert(print@ is Fn);
        assert(print@->Fn_params.len() == 1);
        assert(ty_view(Ty::Unknown) == TyView::Unknown);
        assert(ty_view(Ty::Unit) == TyView::Unit);
        assert(ty_view(Ty::String) == TyView::String);
        assert(print@->Fn_params[0] == ty_view(pv[0]));
        assert(print@->Fn_params[0] == TyView::Unknown);
        assert(print@->Fn_params =~= seq![TyView::Unknown]);
        assert(print@ == print_ty());
        self.defined(String::from_str("print"), print, BindingKind::Const, Span::zero());
        let mut p: Vec<Ty> = Vec::new();
        p.push(Ty::Unknown);
        let ghost pv = p@;
        assert(pv.len() == 1 && pv[0] == Ty::Unknown);
        let println = Ty::Fn { params: p, ret: Box::new(Ty::Unit) };
        assert(println@->Fn_params[0] == TyView::Unknown);
        assert(println@->Fn_params =~= seq![TyView::Unknown]);
        assert(println@ == print_ty());
        self.defined(String::from_str("println"), println, BindingKind::Const, Span::zero());
        let scanln = Ty::Fn { params: Vec::new(), ret: Box::new(Ty::String) };
        assert(scanln@->Fn_params =~= Seq::<TyView>::empty());
        assert(scanln@ == scanln_ty());
        self.defined(String::from_str("scanln"), scanln, BindingKind::Const, Span::zero());
    }

    /// The type a written type stands for.
    pub fn resolve(&self, t: &Type) -> (r: Ty)
        ensures
            r@ == spec_resolve_type(*t),
    {
        match t {
            Type::Primitive(PrimitiveType::Int) => Ty::Int,
            Type::Primitive(PrimitiveType::Float) => Ty::Float,
            Type::Primitive(PrimitiveType::Bool) => Ty::Bool,
            Type::Primitive(PrimitiveType::String) => Ty::String,
            Type::Named(path) => {
                if path.segments.len() == 1 {
                    Ty::Struct(path.segments[0].clone())
                } else {
                    Ty::Unknown
                }
            },
            _ => Ty::Unknown,
        }
    }

    /// Records the struct declarations among `decls`, in order.
    pub fn collect_signatures(&mut self, decls: &Vec<Statement>)
        ensures
            final(self)@ == spec_collect(old(self)@, decls@),
    {
        let mut i: usize = 0;
        while i < decls.len()
            invariant
                i <= decls@.len(),
                self@ == spec_collect(old(self)@, decls@.take(i as int)),
            decreases decls@.len() - i,
        {
            assert(decls@.take(i + 1).drop_last() =~= decls@.take(i as int));
            assert(decls@.take(i + 1).last() == decls@[i as int]);
            match &decls[i] {
                Statement::Struct { name, fields, .. } => {
                    let mut fs: Vec<(String, Ty)> = Vec::new();
                    let mut j: usize = 0;
                    while j < fields.len()
                        invariant
                            j <= fields@.len(),
                            fs@.len() == j,
                            forall|k: int|
                                0 <= k < j ==> (#[trigger] fs@[k]).0@ == fields@[k].name@ && fs@[k].1@
                                    == spec_resolve_type(fields@[k].param_type),
                        decreases fields@.len() - j,
                    {
                        let t = self.resolve(&fields[j].param_type);
                        fs.push((fields[j].name.clone(), t));
                        j = j + 1;
                    }
                    let sig = StructSig { name: name.clone(), fields: fs };
                    assert(struct_view(sig).1 =~= resolved_fields(fields@));
                    let ghost before = self@;
                    self.structs.push(sig);
                    assert(self@.structs =~= before.structs.push((name@, resolved_fields(fields@))));
                },
                _ => {},
            }
            i = i + 1;
        }
        assert(decls@.take(decls@.len() as int) =~= decls@);
    }

    /// The type of the field `field` of the struct named `name`.
    #[verifier::loop_isolation(false)]
    fn field_type(&self, name: &String, field: &String) -> (r: Ty)
        ensures
            r@ == (match find_struct(self@.structs, name@) {
                Some(fields) => match find_field(fields, field@) {
                    Some(t) => t,
                    None => TyView::Unknown,
                },
                None => TyView::Unknown,
            }),
    {
        let ghost structs = self@.structs;
        let mut i = self.structs.len();
        assert(structs.take(i as int) =~= structs);
        while i > 0
            invariant
                i <= self.structs@.len(),
                structs == self@.structs,
                find_struct(structs, name@) == find_struct(structs.take(i as int), name@),
            decreases i,
        {
            i = i - 1;
            assert(structs.take(i + 1).drop_last() =~= structs.take(i as int));
            assert(structs.take(i + 1).last() == struct_view(self.structs@[i as int]));
            if self.structs[i].name == *name {
                let fields = &self.structs[i].fields;
                let ghost fv = struct_view(self.structs@[i as int]).1;
                let mut j = fields.len();
                assert(fv.take(j as int) =~= fv);
                while j > 0
                    invariant
                        j <= fields@.len(),
                        fv == Seq::new(fields@.len(), |k: int| (fields@[k].0@, fields@[k].1@)),
                        find_field(fv, field@) == find_field(fv.take(j as int), field@),
                    decreases j,
                {
                    j = j - 1;
                    assert(fv.take(j + 1).drop_last() =~= fv.take(j as int));
                    assert(fv.take(j + 1).last() == fv[j as int]);
                    if fields[j].0 == *field {
                        return fields[j].1.duplicate();
                    }
                }
                assert(fv.take(0) =~= Seq::<(Seq<char>, TyView)>::empty());
                return Ty::Unknown;
            }
        }
        assert(structs.take(0) =~= Seq::<StructView>::empty());
        Ty::Unknown
    }

    /// The type of an expression.
    pub fn infer(&self, e: &Expression) -> (r: Ty)
        ensures
            r@ == spec_infer(self@, *e),
        decreases e,
    {
        match e {
            Expression::IntLiteral { .. } => Ty::Int,
            Expression::FloatLiteral { .. } => Ty::Float,
            Expression::BoolLiteral { .. } => Ty::Bool,
            Expression::StringLiteral { .. } => Ty::String,
            Expression::Identifier { name, .. } => {
                match self.env.lookup(name.as_str()) {
                    Some(info) => info.ty,
                    None => Ty::Unknown,
                }
            },
            Expression::StructLiteral { name, .. } => Ty::Struct(name.clone()),
            Expression::Prefix { operator, right, .. } => {
                if matches!(operator, Token::LogicNot) {
                    Ty::Bool
                } else {
                    self.infer(right)
                }
            },
            Expression::Infix { left, operator, .. } => {
                if matches!(
                    operator,
                    Token::Equals | Token::NotEquals | Token::Less | Token::Greater
                        | Token::LessOrEquals | Token::GreaterOrEquals | Token::LogicAnd
                        | Token::LogicOr
                ) {
                    Ty::Bool
                } else {
                    self.infer(left)
                }
            },
            Expression::Postfix { left, .. } => self.infer(left),
            Expression::Call { function, .. } => {
                match self.infer(function) {
                    Ty::Fn { ret, .. } => *ret,
                    _ => Ty::Unknown,
                }
            },
            Expression::Field { object, name, .. } => {
                match self.infer(object) {
                    Ty::Struct(s) => self.field_type(&s, name),
                    _ => Ty::Unknown,
                }
            },
            _ => Ty::Unknown,
        }
    }
}

} // verus!
