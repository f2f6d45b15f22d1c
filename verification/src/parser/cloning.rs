//! Copies of syntax trees: a copy has the same mathematical value as the tree
//! it was made from.
use vstd::prelude::*;
use crate::parser::expression::{Expression, StructLiteralField};
use crate::parser::statement::{ElseIf, FunParam, IfStatement, MatchArm, Statement};
use crate::parser::tree::{
    arms_v, else_ifs_v, expr_v, exprs_v, fields_v, param_v, params_v, stmt_v, stmts_v, type_opt_v,
    type_v, types_v, StmtV, TypeV,
};
use crate::parser::types::{Type, TypePath};

verus! {

/// A copy of a list of texts.
fn copy_strings(v: &Vec<String>) -> (r: Vec<String>)
    ensures
        r@ == v@,
{
    let mut r: Vec<String> = Vec::new();
    let mut i: usize = 0;
    while i < v.len()
        invariant
            i <= v@.len(),
            r@ == v@.subrange(0, i as int),
        decreases v@.len() - i,
    {
        r.push(v[i].clone());
        i = i + 1;
        assert(r@ =~= v@.subrange(0, i as int));
    }
    assert(v@.subrange(0, v@.len() as int) =~= v@);
    r
}

/// A copy of a type.
fn copy_type(t: &Type) -> (r: Type)
    ensures
        type_v(r) == type_v(*t),
    decreases t, 0nat,
{
    match t {
        Type::Primitive(p) => Type::Primitive(*p),
        Type::Named(path) => {
            let segments = copy_strings(&path.segments);
            let r = Type::Named(TypePath { segments });
            assert(type_v(r) == type_v(*t)) by {
                if let TypeV::Named(a) = type_v(r) {
                    if let TypeV::Named(b) = type_v(*t) {
                        assert(a =~= b);
                    }
                }
            }
            r
        },
        Type::Generic { name, param } => {
            let param = Box::new(copy_type(&**param));
            Type::Generic { name: name.clone(), param }
        },
        Type::Union(ts) => {
            let ts2 = copy_types(ts);
            let r = Type::Union(ts2);
            assert(type_v(r) == type_v(*t)) by {
                if let TypeV::Union(a) = type_v(r) {
                    if let TypeV::Union(b) = type_v(*t) {
                        assert(a =~= types_v(ts2@));
                        assert(b =~= types_v(ts@));
                    }
                }
            }
            r
        },
    }
}

/// A copy of a list of types.
fn copy_types(ts: &Vec<Type>) -> (r: Vec<Type>)
    ensures
        types_v(r@) == types_v(ts@),
    decreases ts, 1nat,
{
    let mut r: Vec<Type> = Vec::new();
    let mut i: usize = 0;
    while i < ts.len()
        invariant
            i <= ts@.len(),
            r@.len() == i,
            forall|j: int| 0 <= j < i ==> type_v(#[trigger] r@[j]) == type_v(ts@[j]),
        decreases ts@.len() - i,
    {
        proof {
            assert(decreases_to!(ts => ts@));
            assert(decreases_to!(ts@ => ts@[i as int]));
        }
        r.push(copy_type(&ts[i]));
        i = i + 1;
    }
    assert(types_v(r@) =~= types_v(ts@));
    r
}

/// A copy of a parameter.
fn copy_param(p: &FunParam) -> (r: FunParam)
    ensures
        param_v(r) == param_v(*p),
{
    FunParam { name: p.name.clone(), param_type: copy_type(&p.param_type), span: p.span }
}

/// A copy of a parameter list.
fn copy_params(ps: &Vec<FunParam>) -> (r: Vec<FunParam>)
    ensures
        params_v(r@) == params_v(ps@),
{
    let mut r: Vec<FunParam> = Vec::new();
    let mut i: usize = 0;
    while i < ps.len()
        invariant
            i <= ps@.len(),
            r@.len() == i,
            forall|j: int| 0 <= j < i ==> param_v(#[trigger] r@[j]) == param_v(ps@[j]),
        decreases ps@.len() - i,
    {
        r.push(copy_param(&ps[i]));
        i = i + 1;
    }
    assert(params_v(r@) =~= params_v(ps@));
    r
}

/// A copy of an optional type.
fn copy_type_opt(t: &Option<Type>) -> (r: Option<Type>)
    ensures
        type_opt_v(r) == type_opt_v(*t),
{
    match t {
        Some(x) => Some(copy_type(x)),
        None => None,
    }
}

/// The view of an `if` statement, stated through the views of its lists.
proof fn lemma_if_v(st: IfStatement)
    ensures
        stmt_v(Statement::If(st)) == (StmtV::If {
            condition: expr_v(st.condition),
            then_block: stmts_v(st.then_block@),
            else_if: else_ifs_v(st.else_if@),
            else_block: stmts_v(st.else_block@),
            span: st.span,
        }),
{
    let v = stmt_v(Statement::If(st));
    assert(v->If_then_block =~= stmts_v(st.then_block@));
    assert(v->If_else_block =~= stmts_v(st.else_block@));
    assert forall|i: int| 0 <= i < st.else_if@.len() implies #[trigger] v->If_else_if[i]
        == else_ifs_v(st.else_if@)[i] by {
        assert(v->If_else_if[i].block =~= stmts_v(st.else_if@[i].block@));
    }
    assert(v->If_else_if =~= else_ifs_v(st.else_if@));
}

/// A copy of an expression.
fn copy_expr(e: &Expression) -> (r: Expression)
    ensures
        expr_v(r) == expr_v(*e),
    decreases e, 0nat,
{
    match e {
        Expression::Identifier { name, span } => Expression::Identifier { name: name.clone(), span: *span },
        Expression::IntLiteral { val, span } => Expression::IntLiteral { val: *val, span: *span },
        Expression::FloatLiteral { val, span } => Expression::FloatLiteral { val: val.clone(), span: *span },
        Expression::BoolLiteral { val, span } => Expression::BoolLiteral { val: *val, span: *span },
        Expression::StringLiteral { val, span } => Expression::StringLiteral { val: val.clone(), span: *span },
        Expression::StructLiteral { name, fields, span } => {
            let fields2 = copy_fields(fields);
            let r = Expression::StructLiteral { name: name.clone(), fields: fields2, span: *span };
            assert(expr_v(r)->StructLiteral_fields =~= fields_v(fields2@));
            assert(expr_v(*e)->StructLiteral_fields =~= fields_v(fields@));
            r
        },
        Expression::Prefix { operator, right, span } => {
            let right = Box::new(copy_expr(&**right));
            Expression::Prefix { operator: operator.clone(), right, span: *span }
        },
        Expression::Infix { left, operator, right, span } => {
            let left = Box::new(copy_expr(&**left));
            let right = Box::new(copy_expr(&**right));
            Expression::Infix { left, operator: operator.clone(), right, span: *span }
        },
        Expression::Postfix { left, operator, span } => {
            let left = Box::new(copy_expr(&**left));
            Expression::Postfix { left, operator: operator.clone(), span: *span }
        },
        Expression::Index { left, index, span } => {
            let left = Box::new(copy_expr(&**left));
            let index = Box::new(copy_expr(&**index));
            Expression::Index { left, index, span: *span }
        },
        Expression::Call { function, args, span } => {
            let function = Box::new(copy_expr(&**function));
            let args2 = copy_exprs(args);
            let r = Expression::Call { function, args: args2, span: *span };
            assert(expr_v(r)->Call_args =~= exprs_v(args2@));
            assert(expr_v(*e)->Call_args =~= exprs_v(args@));
            r
        },
        Expression::Block { body, span } => {
            let body2 = copy_stmts(body);
            let r = Expression::Block { body: body2, span: *span };
            assert(expr_v(r)->Block_body =~= stmts_v(body2@));
            assert(expr_v(*e)->Block_body =~= stmts_v(body@));
            r
        },
        Expression::Match { target, arms, span } => {
            let target = Box::new(copy_expr(&**target));
            let arms2 = copy_arms(arms);
            let r = Expression::Match { target, arms: arms2, span: *span };
            assert(expr_v(r)->Match_arms =~= arms_v(arms2@));
            assert(expr_v(*e)->Match_arms =~= arms_v(arms@));
            r
        },
        Expression::Field { object, name, span } => {
            let object = Box::new(copy_expr(&**object));
            Expression::Field { object, name: name.clone(), span: *span }
        },
        Expression::MethodCall { object, name, args, span } => {
            let object = Box::new(copy_expr(&**object));
            let args2 = copy_exprs(args);
            let r = Expression::MethodCall { object, name: name.clone(), args: args2, span: *span };
            assert(expr_v(r)->MethodCall_args =~= exprs_v(args2@));
            assert(expr_v(*e)->MethodCall_args =~= exprs_v(args@));
            r
        },
        Expression::Lambda { params, return_type, body, span } => {
            let params2 = copy_params(params);
            let return_type2 = copy_type_opt(return_type);
            let body2 = copy_stmts(body);
            let r = Expression::Lambda {
                params: params2,
                return_type: return_type2,
                body: body2,
                span: *span,
            };
            assert(expr_v(r)->Lambda_body =~= stmts_v(body2@));
            assert(expr_v(*e)->Lambda_body =~= stmts_v(body@));
            r
        },
        Expression::Range { start, end, range_kind, span } => {
            let start = match start {
                Some(x) => Some(Box::new(copy_expr(&**x))),
                None => None,
            };
            let end = match end {
                Some(x) => Some(Box::new(copy_expr(&**x))),
                None => None,
            };
            Expression::Range { start, end, range_kind: *range_kind, span: *span }
        },
    }
}

/// A copy of a list of expressions.
fn copy_exprs(es: &Vec<Expression>) -> (r: Vec<Expression>)
    ensures
        exprs_v(r@) == exprs_v(es@),
    decreases es, 1nat,
{
    let mut r: Vec<Expression> = Vec::new();
    let mut i: usize = 0;
    while i < es.len()
        invariant
            i <= es@.len(),
            r@.len() == i,
            forall|j: int| 0 <= j < i ==> expr_v(#[trigger] r@[j]) == expr_v(es@[j]),
        decreases es@.len() - i,
    {
        proof {
            assert(decreases_to!(es => es@));
            assert(decreases_to!(es@ => es@[i as int]));
        }
        r.push(copy_expr(&es[i]));
        i = i + 1;
    }
    assert(exprs_v(r@) =~= exprs_v(es@));
    r
}

/// A copy of the fields of a struct literal.
fn copy_fields(fs: &Vec<StructLiteralField>) -> (r: Vec<StructLiteralField>)
    ensures
        fields_v(r@) == fields_v(fs@),
    decreases fs, 1nat,
{
    let mut r: Vec<StructLiteralField> = Vec::new();
    let mut i: usize = 0;
    while i < fs.len()
        invariant
            i <= fs@.len(),
            r@.len() == i,
            forall|j: int|
                0 <= j < i ==> (#[trigger] r@[j]).field_name@ == fs@[j].field_name@ && expr_v(
                    *r@[j].field_val,
                ) == expr_v(*fs@[j].field_val),
        decreases fs@.len() - i,
    {
        proof {
            assert(decreases_to!(fs => fs@));
            assert(decreases_to!(fs@ => fs@[i as int]));
            assert(decreases_to!(fs@[i as int] => fs@[i as int].field_val));
        }
        let f = &fs[i];
        let val = Box::new(copy_expr(&*f.field_val));
        r.push(StructLiteralField { field_name: f.field_name.clone(), field_val: val });
        i = i + 1;
    }
    assert(fields_v(r@) =~= fields_v(fs@));
    r
}

/// A copy of the arms of a `match`.
fn copy_arms(arms: &Vec<MatchArm>) -> (r: Vec<MatchArm>)
    ensures
        arms_v(r@) == arms_v(arms@),
    decreases arms, 1nat,
{
    let mut r: Vec<MatchArm> = Vec::new();
    let mut i: usize = 0;
    while i < arms.len()
        invariant
            i <= arms@.len(),
            r@.len() == i,
            forall|j: int|
                0 <= j < i ==> {
                    &&& expr_v((#[trigger] r@[j]).pattern) == expr_v(arms@[j].pattern)
                    &&& expr_v(r@[j].body) == expr_v(arms@[j].body)
                    &&& r@[j].span == arms@[j].span
                },
        decreases arms@.len() - i,
    {
        proof {
            assert(decreases_to!(arms => arms@));
            assert(decreases_to!(arms@ => arms@[i as int]));
        }
        let a = &arms[i];
        let pattern = copy_expr(&a.pattern);
        let body = copy_expr(&a.body);
        r.push(MatchArm { pattern, body, span: a.span });
        i = i + 1;
    }
    assert(arms_v(r@) =~= arms_v(arms@));
    r
}

/// A copy of the `else if` branches of an `if`.
fn copy_else_ifs(eis: &Vec<ElseIf>) -> (r: Vec<ElseIf>)
    ensures
        else_ifs_v(r@) == else_ifs_v(eis@),
    decreases eis, 1nat,
{
    let mut r: Vec<ElseIf> = Vec::new();
    let mut i: usize = 0;
    while i < eis.len()
        invariant
            i <= eis@.len(),
            r@.len() == i,
            forall|j: int|
                0 <= j < i ==> {
                    &&& expr_v((#[trigger] r@[j]).condition) == expr_v(eis@[j].condition)
                    &&& stmts_v(r@[j].block@) == stmts_v(eis@[j].block@)
                    &&& r@[j].span == eis@[j].span
                },
        decreases eis@.len() - i,
    {
        proof {
            assert(decreases_to!(eis => eis@));
            assert(decreases_to!(eis@ => eis@[i as int]));
        }
        let b = &eis[i];
        let condition = copy_expr(&b.condition);
        let block = copy_stmts(&b.block);
        r.push(ElseIf { condition, block, span: b.span });
        i = i + 1;
    }
    assert(else_ifs_v(r@) =~= else_ifs_v(eis@));
    r
}

/// A copy of a block of statements.
fn copy_stmts(ss: &Vec<Statement>) -> (r: Vec<Statement>)
    ensures
        stmts_v(r@) == stmts_v(ss@),
    decreases ss, 1nat,
{
    let mut r: Vec<Statement> = Vec::new();
    let mut i: usize = 0;
    while i < ss.len()
        invariant
            i <= ss@.len(),
            r@.len() == i,
            forall|j: int| 0 <= j < i ==> stmt_v(#[trigger] r@[j]) == stmt_v(ss@[j]),
        decreases ss@.len() - i,
    {
        proof {
            assert(decreases_to!(ss => ss@));
            assert(decreases_to!(ss@ => ss@[i as int]));
        }
        r.push(copy_stmt(&ss[i]));
        i = i + 1;
    }
    assert(stmts_v(r@) =~= stmts_v(ss@));
    r
}

/// A copy of a statement.
fn copy_stmt(s: &Statement) -> (r: Statement)
    ensures
        stmt_v(r) == stmt_v(*s),
    decreases s, 0nat,
{
    match s {
        Statement::Expression { expression, span } => Statement::Expression {
            expression: copy_expr(expression),
            span: *span,
        },
        Statement::Var { name, value, span } => Statement::Var {
            name: name.clone(),
            value: copy_expr(value),
            span: *span,
        },
        Statement::Let { name, value, span } => Statement::Let {
            name: name.clone(),
            value: copy_expr(value),
            span: *span,
        },
        Statement::Const { name, value, span } => Statement::Const {
            name: name.clone(),
            value: copy_expr(value),
            span: *span,
        },
        Statement::If(st) => {
            let st2 = copy_if(st);
            proof {
                lemma_if_v(st2);
                lemma_if_v(*st);
            }
            Statement::If(st2)
        },
        Statement::ForCondition { condition, body, span } => {
            let condition = copy_expr(condition);
            let body2 = copy_stmts(body);
            let r = Statement::ForCondition { condition, body: body2, span: *span };
            assert(stmt_v(r)->ForCondition_body =~= stmts_v(body2@));
            assert(stmt_v(*s)->ForCondition_body =~= stmts_v(body@));
            r
        },
        Statement::ForCounter { init, condition, post, body, span } => {
            let init = Box::new(copy_stmt(&**init));
            let condition = copy_expr(condition);
            let post = copy_expr(post);
            let body2 = copy_stmts(body);
            let r = Statement::ForCounter { init, condition, post, body: body2, span: *span };
            assert(stmt_v(r)->ForCounter_body =~= stmts_v(body2@));
            assert(stmt_v(*s)->ForCounter_body =~= stmts_v(body@));
            r
        },
        Statement::ForRange { variable, iterable, body, span } => {
            let iterable = copy_expr(iterable);
            let body2 = copy_stmts(body);
            let r = Statement::ForRange {
                variable: variable.clone(),
                iterable,
                body: body2,
                span: *span,
            };
            assert(stmt_v(r)->ForRange_body =~= stmts_v(body2@));
            assert(stmt_v(*s)->ForRange_body =~= stmts_v(body@));
            r
        },
        Statement::Return { value, span } => {
            let value = match value {
                Some(v) => Some(copy_expr(v)),
                None => None,
            };
            Statement::Return { value, span: *span }
        },
        Statement::Fun { name, params, return_type, body, span } => {
            let params2 = copy_params(params);
            let return_type2 = copy_type_opt(return_type);
            let body2 = copy_stmts(body);
            let r = Statement::Fun {
                name: name.clone(),
                params: params2,
                return_type: return_type2,
                body: body2,
                span: *span,
            };
            assert(stmt_v(r)->Fun_body =~= stmts_v(body2@));
            assert(stmt_v(*s)->Fun_body =~= stmts_v(body@));
            r
        },
        Statement::Struct { name, fields, span } => Statement::Struct {
            name: name.clone(),
            fields: copy_params(fields),
            span: *span,
        },
    }
}

/// A copy of an `if` statement.
fn copy_if(st: &IfStatement) -> (r: IfStatement)
    ensures
        expr_v(r.condition) == expr_v(st.condition),
        stmts_v(r.then_block@) == stmts_v(st.then_block@),
        else_ifs_v(r.else_if@) == else_ifs_v(st.else_if@),
        stmts_v(r.else_block@) == stmts_v(st.else_block@),
        r.span == st.span,
    decreases st, 0nat,
{
    IfStatement {
        condition: copy_expr(&st.condition),
        then_block: copy_stmts(&st.then_block),
        else_if: copy_else_ifs(&st.else_if),
        else_block: copy_stmts(&st.else_block),
        span: st.span,
    }
}

impl Clone for TypePath {
    fn clone(&self) -> (r: Self)
        ensures
            r.segments@ == self.segments@,
    {
        TypePath { segments: copy_strings(&self.segments) }
    }
}

impl Clone for Type {
    fn clone(&self) -> (r: Self)
        ensures
            type_v(r) == type_v(*self),
    {
        copy_type(self)
    }
}

impl Clone for FunParam {
    fn clone(&self) -> (r: Self)
        ensures
            param_v(r) == param_v(*self),
    {
        copy_param(self)
    }
}

impl Clone for Expression {
    fn clone(&self) -> (r: Self)
        ensures
            expr_v(r) == expr_v(*self),
    {
        copy_expr(self)
    }
}

impl Clone for StructLiteralField {
    fn clone(&self) -> (r: Self)
        ensures
            r.field_name == self.field_name,
            expr_v(*r.field_val) == expr_v(*self.field_val),
    {
        StructLiteralField {
            field_name: self.field_name.clone(),
            field_val: Box::new(copy_expr(&*self.field_val)),
        }
    }
}

impl Clone for MatchArm {
    fn clone(&self) -> (r: Self)
        ensures
            expr_v(r.pattern) == expr_v(self.pattern),
            expr_v(r.body) == expr_v(self.body),
            r.span == self.span,
    {
        MatchArm { pattern: copy_expr(&self.pattern), body: copy_expr(&self.body), span: self.span }
    }
}

impl Clone for ElseIf {
    fn clone(&self) -> (r: Self)
        ensures
            expr_v(r.condition) == expr_v(self.condition),
            stmts_v(r.block@) == stmts_v(self.block@),
            r.span == self.span,
    {
        ElseIf {
            condition: copy_expr(&self.condition),
            block: copy_stmts(&self.block),
            span: self.span,
        }
    }
}

impl Clone for IfStatement {
    fn clone(&self) -> (r: Self)
        ensures
            expr_v(r.condition) == expr_v(self.condition),
            stmts_v(r.then_block@) == stmts_v(self.then_block@),
            else_ifs_v(r.else_if@) == else_ifs_v(self.else_if@),
            stmts_v(r.else_block@) == stmts_v(self.else_block@),
            r.span == self.span,
    {
        copy_if(self)
    }
}

impl Clone for Statement {
    fn clone(&self) -> (r: Self)
        ensures
            stmt_v(r) == stmt_v(*self),
    {
        copy_stmt(self)
    }
}

} // verus!
