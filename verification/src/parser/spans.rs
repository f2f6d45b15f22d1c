//! Erasing source locations from syntax trees.
//!
//! Clearing replaces the spans of a tree by the zero span: those of every
//! expression, statement, match arm, `else if` branch, function parameter and
//! struct field; the parameters of a lambda keep theirs. Two trees are *alike*
//! when they are equal once the spans that clearing replaces are ignored; a
//! tree is *span-free* when every span that clearing replaces is the zero span.
//! `cleared_*` turn a tree into the alike, span-free tree.
use vstd::prelude::*;
use crate::lexer::span::{Span, zero_span};
use crate::parser::expression::{Expression, StructLiteralField};
use crate::parser::statement::{ElseIf, FunParam, IfStatement, MatchArm, Statement};
use crate::parser::tree::{expr_v, params_v, stmt_v};

verus! {

/// Every span in the expression that clearing replaces is the zero span.
pub open spec fn no_spans_expr(e: Expression) -> bool
    decreases e,
{
    match e {
        Expression::Identifier { span, .. } => span == zero_span(),
        Expression::IntLiteral { span, .. } => span == zero_span(),
        Expression::FloatLiteral { span, .. } => span == zero_span(),
        Expression::BoolLiteral { span, .. } => span == zero_span(),
        Expression::StringLiteral { span, .. } => span == zero_span(),
        Expression::StructLiteral { fields, span, .. } => {
            &&& span == zero_span()
            &&& forall|i: int| 0 <= i < fields@.len() ==> no_spans_expr(*(#[trigger] fields@[i]).field_val)
        },
        Expression::Prefix { right, span, .. } => span == zero_span() && no_spans_expr(*right),
        Expression::Infix { left, right, span, .. } => {
            &&& span == zero_span()
            &&& no_spans_expr(*left)
            &&& no_spans_expr(*right)
        },
        Expression::Postfix { left, span, .. } => span == zero_span() && no_spans_expr(*left),
        Expression::Index { left, index, span } => {
            &&& span == zero_span()
            &&& no_spans_expr(*left)
            &&& no_spans_expr(*index)
        },
        Expression::Call { function, args, span } => {
            &&& span == zero_span()
            &&& no_spans_expr(*function)
            &&& forall|i: int| 0 <= i < args@.len() ==> no_spans_expr(#[trigger] args@[i])
        },
        Expression::Block { body, span } => {
            &&& span == zero_span()
            &&& forall|i: int| 0 <= i < body@.len() ==> no_spans_stmt(#[trigger] body@[i])
        },
        Expression::Match { target, arms, span } => {
            &&& span == zero_span()
            &&& no_spans_expr(*target)
            &&& forall|i: int|
                0 <= i < arms@.len() ==> {
                    &&& (#[trigger] arms@[i]).span == zero_span()
                    &&& no_spans_expr(arms@[i].pattern)
                    &&& no_spans_expr(arms@[i].body)
                }
        },
        Expression::Field { object, span, .. } => span == zero_span() && no_spans_expr(*object),
        Expression::MethodCall { object, args, span, .. } => {
            &&& span == zero_span()
            &&& no_spans_expr(*object)
            &&& forall|i: int| 0 <= i < args@.len() ==> no_spans_expr(#[trigger] args@[i])
        },
        Expression::Lambda { body, span, .. } => {
            &&& span == zero_span()
            &&& forall|i: int| 0 <= i < body@.len() ==> no_spans_stmt(#[trigger] body@[i])
        },
        Expression::Range { start, end, span, .. } => {
            &&& span == zero_span()
            &&& (match start {
                Some(s) => no_spans_expr(*s),
                None => true,
            })
            &&& (match end {
                Some(x) => no_spans_expr(*x),
                None => true,
            })
        },
    }
}

/// Every span in the statement that clearing replaces is the zero span.
pub open spec fn no_spans_stmt(s: Statement) -> bool
    decreases s,
{
    match s {
        Statement::Expression { expression, span } => span == zero_span() && no_spans_expr(expression),
        Statement::Var { value, span, .. } => span == zero_span() && no_spans_expr(value),
        Statement::Let { value, span, .. } => span == zero_span() && no_spans_expr(value),
        Statement::Const { value, span, .. } => span == zero_span() && no_spans_expr(value),
        Statement::If(st) => {
            &&& st.span == zero_span()
            &&& no_spans_expr(st.condition)
            &&& forall|i: int| 0 <= i < st.then_block@.len() ==> no_spans_stmt(#[trigger] st.then_block@[i])
            &&& forall|i: int|
                0 <= i < st.else_if@.len() ==> {
                    &&& (#[trigger] st.else_if@[i]).span == zero_span()
                    &&& no_spans_expr(st.else_if@[i].condition)
                    &&& forall|j: int|
                        0 <= j < st.else_if@[i].block@.len() ==> no_spans_stmt(
                            #[trigger] st.else_if@[i].block@[j],
                        )
                }
            &&& forall|i: int| 0 <= i < st.else_block@.len() ==> no_spans_stmt(#[trigger] st.else_block@[i])
        },
        Statement::ForCondition { condition, body, span } => {
            &&& span == zero_span()
            &&& no_spans_expr(condition)
            &&& forall|i: int| 0 <= i < body@.len() ==> no_spans_stmt(#[trigger] body@[i])
        },
        Statement::ForCounter { init, condition, post, body, span } => {
            &&& span == zero_span()
            &&& no_spans_stmt(*init)
            &&& no_spans_expr(condition)
            &&& no_spans_expr(post)
            &&& forall|i: int| 0 <= i < body@.len() ==> no_spans_stmt(#[trigger] body@[i])
        },
        Statement::ForRange { iterable, body, span, .. } => {
            &&& span == zero_span()
            &&& no_spans_expr(iterable)
            &&& forall|i: int| 0 <= i < body@.len() ==> no_spans_stmt(#[trigger] body@[i])
        },
        Statement::Return { value, span } => {
            &&& span == zero_span()
            &&& match value {
                Some(v) => no_spans_expr(v),
                None => true,
            }
        },
        Statement::Fun { params, body, span, .. } => {
            &&& span == zero_span()
            &&& forall|i: int| 0 <= i < params@.len() ==> (#[trigger] params@[i]).span == zero_span()
            &&& forall|i: int| 0 <= i < body@.len() ==> no_spans_stmt(#[trigger] body@[i])
        },
        Statement::Struct { fields, span, .. } => {
            &&& span == zero_span()
            &&& forall|i: int| 0 <= i < fields@.len() ==> (#[trigger] fields@[i]).span == zero_span()
        },
    }
}

/// Two parameter lists that differ at most in their spans.
pub open spec fn alike_params(a: Seq<FunParam>, b: Seq<FunParam>) -> bool {
    &&& a.len() == b.len()
    &&& forall|i: int|
        0 <= i < a.len() ==> (#[trigger] a[i]).name == b[i].name && a[i].param_type == b[i].param_type
}

/// The two expressions are equal once their spans are ignored.
pub open spec fn alike_expr(a: Expression, b: Expression) -> bool
    decreases a,
{
    match (a, b) {
        (Expression::Identifier { name: x, .. }, Expression::Identifier { name: y, .. }) => x == y,
        (Expression::IntLiteral { val: x, .. }, Expression::IntLiteral { val: y, .. }) => x == y,
        (Expression::FloatLiteral { val: x, .. }, Expression::FloatLiteral { val: y, .. }) => x == y,
        (Expression::BoolLiteral { val: x, .. }, Expression::BoolLiteral { val: y, .. }) => x == y,
        (Expression::StringLiteral { val: x, .. }, Expression::StringLiteral { val: y, .. }) => x == y,
        (
            Expression::StructLiteral { name: n1, fields: f1, .. },
            Expression::StructLiteral { name: n2, fields: f2, .. },
        ) => {
            &&& n1 == n2
            &&& f1@.len() == f2@.len()
            &&& forall|i: int|
                0 <= i < f1@.len() ==> {
                    &&& (#[trigger] f1@[i]).field_name == f2@[i].field_name
                    &&& alike_expr(*f1@[i].field_val, *f2@[i].field_val)
                }
        },
        (
            Expression::Prefix { operator: o1, right: r1, .. },
            Expression::Prefix { operator: o2, right: r2, .. },
        ) => o1 == o2 && alike_expr(*r1, *r2),
        (
            Expression::Infix { left: l1, operator: o1, right: r1, .. },
            Expression::Infix { left: l2, operator: o2, right: r2, .. },
        ) => o1 == o2 && alike_expr(*l1, *l2) && alike_expr(*r1, *r2),
        (
            Expression::Postfix { left: l1, operator: o1, .. },
            Expression::Postfix { left: l2, operator: o2, .. },
        ) => o1 == o2 && alike_expr(*l1, *l2),
        (
            Expression::Index { left: l1, index: i1, .. },
            Expression::Index { left: l2, index: i2, .. },
        ) => alike_expr(*l1, *l2) && alike_expr(*i1, *i2),
        (
            Expression::Call { function: f1, args: a1, .. },
            Expression::Call { function: f2, args: a2, .. },
        ) => {
            &&& alike_expr(*f1, *f2)
            &&& a1@.len() == a2@.len()
            &&& forall|i: int| 0 <= i < a1@.len() ==> alike_expr(#[trigger] a1@[i], a2@[i])
        },
        (Expression::Block { body: b1, .. }, Expression::Block { body: b2, .. }) => {
            &&& b1@.len() == b2@.len()
            &&& forall|i: int| 0 <= i < b1@.len() ==> alike_stmt(#[trigger] b1@[i], b2@[i])
        },
        (
            Expression::Match { target: t1, arms: a1, .. },
            Expression::Match { target: t2, arms: a2, .. },
        ) => {
            &&& alike_expr(*t1, *t2)
            &&& a1@.len() == a2@.len()
            &&& forall|i: int|
                0 <= i < a1@.len() ==> {
                    &&& alike_expr((#[trigger] a1@[i]).pattern, a2@[i].pattern)
                    &&& alike_expr(a1@[i].body, a2@[i].body)
                }
        },
        (
            Expression::Field { object: o1, name: n1, .. },
            Expression::Field { object: o2, name: n2, .. },
        ) => n1 == n2 && alike_expr(*o1, *o2),
        (
            Expression::MethodCall { object: o1, name: n1, args: a1, .. },
            Expression::MethodCall { object: o2, name: n2, args: a2, .. },
        ) => {
            &&& n1 == n2
            &&& alike_expr(*o1, *o2)
            &&& a1@.len() == a2@.len()
            &&& forall|i: int| 0 <= i < a1@.len() ==> alike_expr(#[trigger] a1@[i], a2@[i])
        },
        (
            Expression::Lambda { params: p1, return_type: r1, body: b1, .. },
            Expression::Lambda { params: p2, return_type: r2, body: b2, .. },
        ) => {
            &&& params_v(p1@) == params_v(p2@)
            &&& r1 == r2
            &&& b1@.len() == b2@.len()
            &&& forall|i: int| 0 <= i < b1@.len() ==> alike_stmt(#[trigger] b1@[i], b2@[i])
        },
        (
            Expression::Range { start: s1, end: e1, range_kind: k1, .. },
            Expression::Range { start: s2, end: e2, range_kind: k2, .. },
        ) => {
            &&& k1 == k2
            &&& (match (s1, s2) {
                (Some(x), Some(y)) => alike_expr(*x, *y),
                (None, None) => true,
                _ => false,
            })
            &&& (match (e1, e2) {
                (Some(x), Some(y)) => alike_expr(*x, *y),
                (None, None) => true,
                _ => false,
            })
        },
        _ => false,
    }
}

/// The two statements are equal once their spans are ignored.
pub open spec fn alike_stmt(a: Statement, b: Statement) -> bool
    decreases a,
{
    match (a, b) {
        (
            Statement::Expression { expression: x, .. },
            Statement::Expression { expression: y, .. },
        ) => alike_expr(x, y),
        (Statement::Var { name: n1, value: v1, .. }, Statement::Var { name: n2, value: v2, .. }) => n1
            == n2 && alike_expr(v1, v2),
        (Statement::Let { name: n1, value: v1, .. }, Statement::Let { name: n2, value: v2, .. }) => n1
            == n2 && alike_expr(v1, v2),
        (
            Statement::Const { name: n1, value: v1, .. },
            Statement::Const { name: n2, value: v2, .. },
        ) => n1 == n2 && alike_expr(v1, v2),
        (Statement::If(x), Statement::If(y)) => {
            &&& alike_expr(x.condition, y.condition)
            &&& x.then_block@.len() == y.then_block@.len()
            &&& forall|i: int|
                0 <= i < x.then_block@.len() ==> alike_stmt(
                    #[trigger] x.then_block@[i],
                    y.then_block@[i],
                )
            &&& x.else_if@.len() == y.else_if@.len()
            &&& forall|i: int|
                0 <= i < x.else_if@.len() ==> {
                    &&& alike_expr((#[trigger] x.else_if@[i]).condition, y.else_if@[i].condition)
                    &&& x.else_if@[i].block@.len() == y.else_if@[i].block@.len()
                    &&& forall|j: int|
                        0 <= j < x.else_if@[i].block@.len() ==> alike_stmt(
                            #[trigger] x.else_if@[i].block@[j],
                            y.else_if@[i].block@[j],
                        )
                }
            &&& x.else_block@.len() == y.else_block@.len()
            &&& forall|i: int|
                0 <= i < x.else_block@.len() ==> alike_stmt(
                    #[trigger] x.else_block@[i],
                    y.else_block@[i],
                )
        },
        (
            Statement::ForCondition { condition: c1, body: b1, .. },
            Statement::ForCondition { condition: c2, body: b2, .. },
        ) => {
            &&& alike_expr(c1, c2)
            &&& b1@.len() == b2@.len()
            &&& forall|i: int| 0 <= i < b1@.len() ==> alike_stmt(#[trigger] b1@[i], b2@[i])
        },
        (
            Statement::ForCounter { init: i1, condition: c1, post: p1, body: b1, .. },
            Statement::ForCounter { init: i2, condition: c2, post: p2, body: b2, .. },
        ) => {
            &&& alike_stmt(*i1, *i2)
            &&& alike_expr(c1, c2)
            &&& alike_expr(p1, p2)
            &&& b1@.len() == b2@.len()
            &&& forall|i: int| 0 <= i < b1@.len() ==> alike_stmt(#[trigger] b1@[i], b2@[i])
        },
        (
            Statement::ForRange { variable: v1, iterable: it1, body: b1, .. },
            Statement::ForRange { variable: v2, iterable: it2, body: b2, .. },
        ) => {
            &&& v1 == v2
            &&& alike_expr(it1, it2)
            &&& b1@.len() == b2@.len()
            &&& forall|i: int| 0 <= i < b1@.len() ==> alike_stmt(#[trigger] b1@[i], b2@[i])
        },
        (Statement::Return { value: v1, .. }, Statement::Return { value: v2, .. }) => match (v1, v2) {
            (Some(x), Some(y)) => alike_expr(x, y),
            (None, None) => true,
            _ => false,
        },
        (
            Statement::Fun { name: n1, params: p1, return_type: r1, body: b1, .. },
            Statement::Fun { name: n2, params: p2, return_type: r2, body: b2, .. },
        ) => {
            &&& n1 == n2
            &&& alike_params(p1@, p2@)
            &&& r1 == r2
            &&& b1@.len() == b2@.len()
            &&& forall|i: int| 0 <= i < b1@.len() ==> alike_stmt(#[trigger] b1@[i], b2@[i])
        },
        (
            Statement::Struct { name: n1, fields: f1, .. },
            Statement::Struct { name: n2, fields: f2, .. },
        ) => n1 == n2 && alike_params(f1@, f2@),
        _ => false,
    }
}

// ---------------------------------------------------------------------------
// Erasing spans

/// The expression with every span replaced by the zero span.
pub fn cleared_expr(e: Expression) -> (r: Expression)
    ensures
        no_spans_expr(r),
        alike_expr(e, r),
    decreases e, 0nat,
{
    let z = Span::zero();
    match e {
        Expression::Identifier { name, .. } => Expression::Identifier { name, span: z },
        Expression::IntLiteral { val, .. } => Expression::IntLiteral { val, span: z },
        Expression::FloatLiteral { val, .. } => Expression::FloatLiteral { val, span: z },
        Expression::BoolLiteral { val, .. } => Expression::BoolLiteral { val, span: z },
        Expression::StringLiteral { val, .. } => Expression::StringLiteral { val, span: z },
        Expression::StructLiteral { name, fields, .. } => {
            let fields = cleared_fields(fields);
            Expression::StructLiteral { name, fields, span: z }
        },
        Expression::Prefix { operator, right, .. } => {
            let right = Box::new(cleared_expr(*right));
            Expression::Prefix { operator, right, span: z }
        },
        Expression::Infix { left, operator, right, .. } => {
            let left = Box::new(cleared_expr(*left));
            let right = Box::new(cleared_expr(*right));
            Expression::Infix { left, operator, right, span: z }
        },
        Expression::Postfix { left, operator, .. } => {
            let left = Box::new(cleared_expr(*left));
            Expression::Postfix { left, operator, span: z }
        },
        Expression::Index { left, index, .. } => {
            let left = Box::new(cleared_expr(*left));
            let index = Box::new(cleared_expr(*index));
            Expression::Index { left, index, span: z }
        },
        Expression::Call { function, args, .. } => {
            let function = Box::new(cleared_expr(*function));
            let args = cleared_exprs(args);
            Expression::Call { function, args, span: z }
        },
        Expression::Block { body, .. } => {
            let body = cleared_stmts(body);
            Expression::Block { body, span: z }
        },
        Expression::Match { target, arms, .. } => {
            let target = Box::new(cleared_expr(*target));
            let arms = cleared_arms(arms);
            Expression::Match { target, arms, span: z }
        },
        Expression::Field { object, name, .. } => {
            let object = Box::new(cleared_expr(*object));
            Expression::Field { object, name, span: z }
        },
        Expression::MethodCall { object, name, args, .. } => {
            let object = Box::new(cleared_expr(*object));
            let args = cleared_exprs(args);
            Expression::MethodCall { object, name, args, span: z }
        },
        Expression::Lambda { params, return_type, body, .. } => {
            let body = cleared_stmts(body);
            Expression::Lambda { params, return_type, body, span: z }
        },
        Expression::Range { start, end, range_kind, .. } => {
            let start = match start {
                Some(s) => Some(Box::new(cleared_expr(*s))),
                None => None,
            };
            let end = match end {
                Some(x) => Some(Box::new(cleared_expr(*x))),
                None => None,
            };
            Expression::Range { start, end, range_kind, span: z }
        },
    }
}

/// The statement with every span replaced by the zero span.
pub fn cleared_stmt(s: Statement) -> (r: Statement)
    ensures
        no_spans_stmt(r),
        alike_stmt(s, r),
    decreases s, 0nat,
{
    let z = Span::zero();
    match s {
        Statement::Expression { expression, .. } => {
            let expression = cleared_expr(expression);
            Statement::Expression { expression, span: z }
        },
        Statement::Var { name, value, .. } => {
            let value = cleared_expr(value);
            Statement::Var { name, value, span: z }
        },
        Statement::Let { name, value, .. } => {
            let value = cleared_expr(value);
            Statement::Let { name, value, span: z }
        },
        Statement::Const { name, value, .. } => {
            let value = cleared_expr(value);
            Statement::Const { name, value, span: z }
        },
        Statement::If(st) => {
            let IfStatement { condition, then_block, else_if, else_block, .. } = st;
            let condition = cleared_expr(condition);
            let then_block = cleared_stmts(then_block);
            let else_if = cleared_else_ifs(else_if);
            let else_block = cleared_stmts(else_block);
            Statement::If(IfStatement { condition, then_block, else_if, else_block, span: z })
        },
        Statement::ForCondition { condition, body, .. } => {
            let condition = cleared_expr(condition);
            let body = cleared_stmts(body);
            Statement::ForCondition { condition, body, span: z }
        },
        Statement::ForCounter { init, condition, post, body, .. } => {
            let init = Box::new(cleared_stmt(*init));
            let condition = cleared_expr(condition);
            let post = cleared_expr(post);
            let body = cleared_stmts(body);
            Statement::ForCounter { init, condition, post, body, span: z }
        },
        Statement::ForRange { variable, iterable, body, .. } => {
            let iterable = cleared_expr(iterable);
            let body = cleared_stmts(body);
            Statement::ForRange { variable, iterable, body, span: z }
        },
        Statement::Return { value, .. } => {
            let value = match value {
                Some(v) => Some(cleared_expr(v)),
                None => None,
            };
            Statement::Return { value, span: z }
        },
        Statement::Fun { name, params, return_type, body, .. } => {
            let params = cleared_params(params);
            let body = cleared_stmts(body);
            Statement::Fun { name, params, return_type, body, span: z }
        },
        Statement::Struct { name, fields, .. } => {
            let fields = cleared_params(fields);
            Statement::Struct { name, fields, span: z }
        },
    }
}

/// The parameter with its span replaced by the zero span.
pub fn cleared_param(p: FunParam) -> (r: FunParam)
    ensures
        r.span == zero_span(),
        r.name == p.name,
        r.param_type == p.param_type,
{
    FunParam { name: p.name, param_type: p.param_type, span: Span::zero() }
}

/// Every parameter with its span replaced by the zero span.
pub fn cleared_params(ps: Vec<FunParam>) -> (r: Vec<FunParam>)
    ensures
        alike_params(ps@, r@),
        forall|i: int| 0 <= i < r@.len() ==> (#[trigger] r@[i]).span == zero_span(),
{
    let ghost orig = ps@;
    let mut v = ps;
    let mut r: Vec<FunParam> = Vec::new();
    while v.len() > 0
        invariant
            r@.len() + v@.len() == orig.len(),
            v@ == orig.skip(r@.len() as int),
            forall|i: int|
                0 <= i < r@.len() ==> {
                    &&& (#[trigger] r@[i]).span == zero_span()
                    &&& r@[i].name == orig[i].name
                    &&& r@[i].param_type == orig[i].param_type
                },
        decreases v@.len(),
    {
        let ghost k = r@.len() as int;
        let x = v.remove(0);
        assert(x == orig[k]);
        r.push(cleared_param(x));
        assert(v@ =~= orig.skip(r@.len() as int));
    }
    r
}

/// Every expression with its spans replaced by zero spans.
pub fn cleared_exprs(es: Vec<Expression>) -> (r: Vec<Expression>)
    ensures
        r@.len() == es@.len(),
        forall|i: int| 0 <= i < es@.len() ==> no_spans_expr(#[trigger] r@[i]) && alike_expr(es@[i], r@[i]),
    decreases es, 1nat,
{
    let ghost orig = es@;
    let mut v = es;
    let mut r: Vec<Expression> = Vec::new();
    while v.len() > 0
        invariant
            orig == es@,
            r@.len() + v@.len() == orig.len(),
            v@ == orig.skip(r@.len() as int),
            forall|i: int| 0 <= i < r@.len() ==> no_spans_expr(#[trigger] r@[i]) && alike_expr(orig[i], r@[i]),
        decreases v@.len(),
    {
        let ghost k = r@.len() as int;
        let x = v.remove(0);
        assert(x == orig[k]);
        proof {
            assert(decreases_to!(es => es@));
            assert(decreases_to!(es@ => es@[k]));
        }
        r.push(cleared_expr(x));
        assert(v@ =~= orig.skip(r@.len() as int));
    }
    r
}

/// Every statement with its spans replaced by zero spans.
pub fn cleared_stmts(ss: Vec<Statement>) -> (r: Vec<Statement>)
    ensures
        r@.len() == ss@.len(),
        forall|i: int| 0 <= i < ss@.len() ==> no_spans_stmt(#[trigger] r@[i]) && alike_stmt(ss@[i], r@[i]),
    decreases ss, 1nat,
{
    let ghost orig = ss@;
    let mut v = ss;
    let mut r: Vec<Statement> = Vec::new();
    while v.len() > 0
        invariant
            orig == ss@,
            r@.len() + v@.len() == orig.len(),
            v@ == orig.skip(r@.len() as int),
            forall|i: int| 0 <= i < r@.len() ==> no_spans_stmt(#[trigger] r@[i]) && alike_stmt(orig[i], r@[i]),
        decreases v@.len(),
    {
        let ghost k = r@.len() as int;
        let x = v.remove(0);
        assert(x == orig[k]);
        proof {
            assert(decreases_to!(ss => ss@));
            assert(decreases_to!(ss@ => ss@[k]));
        }
        r.push(cleared_stmt(x));
        assert(v@ =~= orig.skip(r@.len() as int));
    }
    r
}

/// Every match arm with its spans replaced by zero spans.
pub fn cleared_arms(arms: Vec<MatchArm>) -> (r: Vec<MatchArm>)
    ensures
        r@.len() == arms@.len(),
        forall|i: int|
            0 <= i < arms@.len() ==> {
                &&& (#[trigger] r@[i]).span == zero_span()
                &&& no_spans_expr(r@[i].pattern)
                &&& no_spans_expr(r@[i].body)
                &&& alike_expr(arms@[i].pattern, r@[i].pattern)
                &&& alike_expr(arms@[i].body, r@[i].body)
            },
    decreases arms, 1nat,
{
    let ghost orig = arms@;
    let mut v = arms;
    let mut r: Vec<MatchArm> = Vec::new();
    while v.len() > 0
        invariant
            orig == arms@,
            r@.len() + v@.len() == orig.len(),
            v@ == orig.skip(r@.len() as int),
            forall|i: int|
                0 <= i < r@.len() ==> {
                    &&& (#[trigger] r@[i]).span == zero_span()
                    &&& no_spans_expr(r@[i].pattern)
                    &&& no_spans_expr(r@[i].body)
                    &&& alike_expr(orig[i].pattern, r@[i].pattern)
                    &&& alike_expr(orig[i].body, r@[i].body)
                },
        decreases v@.len(),
    {
        let ghost k = r@.len() as int;
        let x = v.remove(0);
        assert(x == orig[k]);
        proof {
            assert(decreases_to!(arms => arms@));
            assert(decreases_to!(arms@ => arms@[k]));
        }
        let MatchArm { pattern, body, .. } = x;
        let pattern = cleared_expr(pattern);
        let body = cleared_expr(body);
        r.push(MatchArm { pattern, body, span: Span::zero() });
        assert(v@ =~= orig.skip(r@.len() as int));
    }
    r
}

/// Every struct-literal field with the spans of its value replaced by zero spans.
pub fn cleared_fields(fields: Vec<StructLiteralField>) -> (r: Vec<StructLiteralField>)
    ensures
        r@.len() == fields@.len(),
        forall|i: int|
            0 <= i < fields@.len() ==> {
                &&& (#[trigger] r@[i]).field_name == fields@[i].field_name
                &&& no_spans_expr(*r@[i].field_val)
                &&& alike_expr(*fields@[i].field_val, *r@[i].field_val)
            },
    decreases fields, 1nat,
{
    let ghost orig = fields@;
    let mut v = fields;
    let mut r: Vec<StructLiteralField> = Vec::new();
    while v.len() > 0
        invariant
            orig == fields@,
            r@.len() + v@.len() == orig.len(),
            v@ == orig.skip(r@.len() as int),
            forall|i: int|
                0 <= i < r@.len() ==> {
                    &&& (#[trigger] r@[i]).field_name == orig[i].field_name
                    &&& no_spans_expr(*r@[i].field_val)
                    &&& alike_expr(*orig[i].field_val, *r@[i].field_val)
                },
        decreases v@.len(),
    {
        let ghost k = r@.len() as int;
        let x = v.remove(0);
        assert(x == orig[k]);
        proof {
            assert(decreases_to!(fields => fields@));
            assert(decreases_to!(fields@ => fields@[k]));
        }
        let StructLiteralField { field_name, field_val } = x;
        let field_val = Box::new(cleared_expr(*field_val));
        r.push(StructLiteralField { field_name, field_val });
        assert(v@ =~= orig.skip(r@.len() as int));
    }
    r
}

/// Every `else if` branch with its spans replaced by zero spans.
pub fn cleared_else_ifs(branches: Vec<ElseIf>) -> (r: Vec<ElseIf>)
    ensures
        r@.len() == branches@.len(),
        forall|i: int|
            0 <= i < branches@.len() ==> {
                &&& (#[trigger] r@[i]).span == zero_span()
                &&& no_spans_expr(r@[i].condition)
                &&& alike_expr(branches@[i].condition, r@[i].condition)
                &&& r@[i].block@.len() == branches@[i].block@.len()
                &&& forall|j: int|
                    0 <= j < r@[i].block@.len() ==> {
                        &&& no_spans_stmt(#[trigger] r@[i].block@[j])
                        &&& alike_stmt(branches@[i].block@[j], r@[i].block@[j])
                    }
            },
    decreases branches, 1nat,
{
    let ghost orig = branches@;
    let mut v = branches;
    let mut r: Vec<ElseIf> = Vec::new();
    while v.len() > 0
        invariant
            orig == branches@,
            r@.len() + v@.len() == orig.len(),
            v@ == orig.skip(r@.len() as int),
            forall|i: int|
                0 <= i < r@.len() ==> {
                    &&& (#[trigger] r@[i]).span == zero_span()
                    &&& no_spans_expr(r@[i].condition)
                    &&& alike_expr(orig[i].condition, r@[i].condition)
                    &&& r@[i].block@.len() == orig[i].block@.len()
                    &&& forall|j: int|
                        0 <= j < r@[i].block@.len() ==> {
                            &&& no_spans_stmt(#[trigger] r@[i].block@[j])
                            &&& alike_stmt(orig[i].block@[j], r@[i].block@[j])
                        }
                },
        decreases v@.len(),
    {
        let ghost k = r@.len() as int;
        let x = v.remove(0);
        assert(x == orig[k]);
        proof {
            assert(decreases_to!(branches => branches@));
            assert(decreases_to!(branches@ => branches@[k]));
        }
        let ElseIf { condition, block, .. } = x;
        let condition = cleared_expr(condition);
        let block = cleared_stmts(block);
        r.push(ElseIf { condition, block, span: Span::zero() });
        assert(v@ =~= orig.skip(r@.len() as int));
    }
    r
}

// ---------------------------------------------------------------------------
// The span-free form of a tree is unique

/// Two span-free expressions that are alike are the same tree; so clearing
/// the spans of an expression a second time gives the tree the first gave.
pub proof fn law_span_free_alike_expr(a: Expression, b: Expression)
    requires
        no_spans_expr(a),
        no_spans_expr(b),
        alike_expr(a, b),
    ensures
        expr_v(a) == expr_v(b),
    decreases a,
{
    match (a, b) {
        (
            Expression::StructLiteral { fields: f1, span, .. },
            Expression::StructLiteral { fields: f2, .. },
        ) => {
            assert forall|i: int| 0 <= i < f1@.len() implies expr_v(*f1@[i].field_val) == expr_v(
                *f2@[i].field_val,
            ) by {
                assert(no_spans_expr(*f1@[i].field_val));
                assert(no_spans_expr(*f2@[i].field_val));
                law_span_free_alike_expr(*f1@[i].field_val, *f2@[i].field_val);
            }
            assert(expr_v(a)->StructLiteral_fields =~= expr_v(b)->StructLiteral_fields);
        },
        (Expression::Prefix { right: r1, .. }, Expression::Prefix { right: r2, .. }) => {
            law_span_free_alike_expr(*r1, *r2);
        },
        (
            Expression::Infix { left: l1, right: r1, .. },
            Expression::Infix { left: l2, right: r2, .. },
        ) => {
            law_span_free_alike_expr(*l1, *l2);
            law_span_free_alike_expr(*r1, *r2);
        },
        (Expression::Postfix { left: l1, .. }, Expression::Postfix { left: l2, .. }) => {
            law_span_free_alike_expr(*l1, *l2);
        },
        (
            Expression::Index { left: l1, index: i1, .. },
            Expression::Index { left: l2, index: i2, .. },
        ) => {
            law_span_free_alike_expr(*l1, *l2);
            law_span_free_alike_expr(*i1, *i2);
        },
        (
            Expression::Call { function: f1, args: a1, .. },
            Expression::Call { function: f2, args: a2, .. },
        ) => {
            law_span_free_alike_expr(*f1, *f2);
            assert forall|i: int| 0 <= i < a1@.len() implies expr_v(a1@[i]) == expr_v(a2@[i]) by {
                law_span_free_alike_expr(a1@[i], a2@[i]);
            }
            assert(expr_v(a)->Call_args =~= expr_v(b)->Call_args);
        },
        (Expression::Block { body: b1, .. }, Expression::Block { body: b2, .. }) => {
            assert forall|i: int| 0 <= i < b1@.len() implies stmt_v(b1@[i]) == stmt_v(b2@[i]) by {
                law_span_free_alike_stmt(b1@[i], b2@[i]);
            }
            assert(expr_v(a)->Block_body =~= expr_v(b)->Block_body);
        },
        (
            Expression::Match { target: t1, arms: m1, .. },
            Expression::Match { target: t2, arms: m2, .. },
        ) => {
            law_span_free_alike_expr(*t1, *t2);
            assert forall|i: int| 0 <= i < m1@.len() implies expr_v(a)->Match_arms[i] == expr_v(
                b,
            )->Match_arms[i] by {
                law_span_free_alike_expr(m1@[i].pattern, m2@[i].pattern);
                law_span_free_alike_expr(m1@[i].body, m2@[i].body);
            }
            assert(expr_v(a)->Match_arms =~= expr_v(b)->Match_arms);
        },
        (Expression::Field { object: o1, .. }, Expression::Field { object: o2, .. }) => {
            law_span_free_alike_expr(*o1, *o2);
        },
        (
            Expression::MethodCall { object: o1, args: a1, .. },
            Expression::MethodCall { object: o2, args: a2, .. },
        ) => {
            law_span_free_alike_expr(*o1, *o2);
            assert forall|i: int| 0 <= i < a1@.len() implies expr_v(a1@[i]) == expr_v(a2@[i]) by {
                law_span_free_alike_expr(a1@[i], a2@[i]);
            }
            assert(expr_v(a)->MethodCall_args =~= expr_v(b)->MethodCall_args);
        },
        (
            Expression::Lambda { params: p1, body: b1, .. },
            Expression::Lambda { params: p2, body: b2, .. },
        ) => {
            assert forall|i: int| 0 <= i < b1@.len() implies stmt_v(b1@[i]) == stmt_v(b2@[i]) by {
                law_span_free_alike_stmt(b1@[i], b2@[i]);
            }
            assert(expr_v(a)->Lambda_body =~= expr_v(b)->Lambda_body);
        },
        (
            Expression::Range { start: s1, end: e1, .. },
            Expression::Range { start: s2, end: e2, .. },
        ) => {
            match (s1, s2) {
                (Some(x), Some(y)) => law_span_free_alike_expr(*x, *y),
                _ => {},
            }
            match (e1, e2) {
                (Some(x), Some(y)) => law_span_free_alike_expr(*x, *y),
                _ => {},
            }
        },
        _ => {},
    }
}

/// Two span-free statements that are alike are the same tree; so clearing
/// the spans of a statement a second time gives the tree the first gave.
pub proof fn law_span_free_alike_stmt(a: Statement, b: Statement)
    requires
        no_spans_stmt(a),
        no_spans_stmt(b),
        alike_stmt(a, b),
    ensures
        stmt_v(a) == stmt_v(b),
    decreases a,
{
    match (a, b) {
        (
            Statement::Expression { expression: x, .. },
            Statement::Expression { expression: y, .. },
        ) => {
            law_span_free_alike_expr(x, y);
        },
        (Statement::Var { value: v1, .. }, Statement::Var { value: v2, .. }) => {
            law_span_free_alike_expr(v1, v2);
        },
        (Statement::Let { value: v1, .. }, Statement::Let { value: v2, .. }) => {
            law_span_free_alike_expr(v1, v2);
        },
        (Statement::Const { value: v1, .. }, Statement::Const { value: v2, .. }) => {
            law_span_free_alike_expr(v1, v2);
        },
        (Statement::If(x), Statement::If(y)) => {
            law_span_free_alike_expr(x.condition, y.condition);
            assert forall|i: int| 0 <= i < x.then_block@.len() implies stmt_v(x.then_block@[i])
                == stmt_v(y.then_block@[i]) by {
                law_span_free_alike_stmt(x.then_block@[i], y.then_block@[i]);
            }
            assert forall|i: int| 0 <= i < x.else_block@.len() implies stmt_v(x.else_block@[i])
                == stmt_v(y.else_block@[i]) by {
                law_span_free_alike_stmt(x.else_block@[i], y.else_block@[i]);
            }
            assert forall|i: int| 0 <= i < x.else_if@.len() implies stmt_v(a)->If_else_if[i]
                == stmt_v(b)->If_else_if[i] by {
                let ex = x.else_if@[i];
                let ey = y.else_if@[i];
                law_span_free_alike_expr(ex.condition, ey.condition);
                assert forall|j: int| 0 <= j < ex.block@.len() implies stmt_v(ex.block@[j])
                    == stmt_v(ey.block@[j]) by {
                    law_span_free_alike_stmt(ex.block@[j], ey.block@[j]);
                }
                assert(stmt_v(a)->If_else_if[i].block =~= stmt_v(b)->If_else_if[i].block);
            }
            assert(stmt_v(a)->If_then_block =~= stmt_v(b)->If_then_block);
            assert(stmt_v(a)->If_else_block =~= stmt_v(b)->If_else_block);
            assert(stmt_v(a)->If_else_if =~= stmt_v(b)->If_else_if);
        },
        (
            Statement::ForCondition { condition: c1, body: b1, .. },
            Statement::ForCondition { condition: c2, body: b2, .. },
        ) => {
            law_span_free_alike_expr(c1, c2);
            assert forall|i: int| 0 <= i < b1@.len() implies stmt_v(b1@[i]) == stmt_v(b2@[i]) by {
                law_span_free_alike_stmt(b1@[i], b2@[i]);
            }
            assert(stmt_v(a)->ForCondition_body =~= stmt_v(b)->ForCondition_body);
        },
        (
            Statement::ForCounter { init: i1, condition: c1, post: p1, body: b1, .. },
            Statement::ForCounter { init: i2, condition: c2, post: p2, body: b2, .. },
        ) => {
            law_span_free_alike_stmt(*i1, *i2);
            law_span_free_alike_expr(c1, c2);
            law_span_free_alike_expr(p1, p2);
            assert forall|i: int| 0 <= i < b1@.len() implies stmt_v(b1@[i]) == stmt_v(b2@[i]) by {
                law_span_free_alike_stmt(b1@[i], b2@[i]);
            }
            assert(stmt_v(a)->ForCounter_body =~= stmt_v(b)->ForCounter_body);
        },
        (
            Statement::ForRange { iterable: it1, body: b1, .. },
            Statement::ForRange { iterable: it2, body: b2, .. },
        ) => {
            law_span_free_alike_expr(it1, it2);
            assert forall|i: int| 0 <= i < b1@.len() implies stmt_v(b1@[i]) == stmt_v(b2@[i]) by {
                law_span_free_alike_stmt(b1@[i], b2@[i]);
            }
            assert(stmt_v(a)->ForRange_body =~= stmt_v(b)->ForRange_body);
        },
        (Statement::Return { value: v1, .. }, Statement::Return { value: v2, .. }) => {
            match (v1, v2) {
                (Some(x), Some(y)) => law_span_free_alike_expr(x, y),
                _ => {},
            }
        },
        (
            Statement::Fun { params: p1, body: b1, .. },
            Statement::Fun { params: p2, body: b2, .. },
        ) => {
            assert(params_v(p1@) =~= params_v(p2@));
            assert forall|i: int| 0 <= i < b1@.len() implies stmt_v(b1@[i]) == stmt_v(b2@[i]) by {
                law_span_free_alike_stmt(b1@[i], b2@[i]);
            }
            assert(stmt_v(a)->Fun_body =~= stmt_v(b)->Fun_body);
        },
        (Statement::Struct { fields: f1, .. }, Statement::Struct { fields: f2, .. }) => {
            assert(params_v(f1@) =~= params_v(f2@));
        },
        _ => {},
    }
}

// ---------------------------------------------------------------------------
// Being alike is symmetric and transitive

proof fn lemma_alike_sym_expr(a: Expression, b: Expression)
    requires
        alike_expr(a, b),
    ensures
        alike_expr(b, a),
    decreases a,
{
    match (a, b) {
        (
            Expression::StructLiteral { fields: f1, .. },
            Expression::StructLiteral { fields: f2, .. },
        ) => {
            assert forall|i: int| 0 <= i < f2@.len() implies {
                &&& (#[trigger] f2@[i]).field_name == f1@[i].field_name
                &&& alike_expr(*f2@[i].field_val, *f1@[i].field_val)
            } by {
                lemma_alike_sym_expr(*f1@[i].field_val, *f2@[i].field_val);
            }
        },
        (Expression::Prefix { right: r1, .. }, Expression::Prefix { right: r2, .. }) => {
            lemma_alike_sym_expr(*r1, *r2);
        },
        (
            Expression::Infix { left: l1, right: r1, .. },
            Expression::Infix { left: l2, right: r2, .. },
        ) => {
            lemma_alike_sym_expr(*l1, *l2);
            lemma_alike_sym_expr(*r1, *r2);
        },
        (Expression::Postfix { left: l1, .. }, Expression::Postfix { left: l2, .. }) => {
            lemma_alike_sym_expr(*l1, *l2);
        },
        (
            Expression::Index { left: l1, index: i1, .. },
            Expression::Index { left: l2, index: i2, .. },
        ) => {
            lemma_alike_sym_expr(*l1, *l2);
            lemma_alike_sym_expr(*i1, *i2);
        },
        (
            Expression::Call { function: f1, args: a1, .. },
            Expression::Call { function: f2, args: a2, .. },
        ) => {
            lemma_alike_sym_expr(*f1, *f2);
            assert forall|i: int| 0 <= i < a2@.len() implies alike_expr(#[trigger] a2@[i], a1@[i]) by {
                lemma_alike_sym_expr(a1@[i], a2@[i]);
            }
        },
        (Expression::Block { body: b1, .. }, Expression::Block { body: b2, .. }) => {
            assert forall|i: int| 0 <= i < b2@.len() implies alike_stmt(#[trigger] b2@[i], b1@[i]) by {
                lemma_alike_sym_stmt(b1@[i], b2@[i]);
            }
        },
        (
            Expression::Match { target: t1, arms: m1, .. },
            Expression::Match { target: t2, arms: m2, .. },
        ) => {
            lemma_alike_sym_expr(*t1, *t2);
            assert forall|i: int| 0 <= i < m2@.len() implies {
                &&& alike_expr((#[trigger] m2@[i]).pattern, m1@[i].pattern)
                &&& alike_expr(m2@[i].body, m1@[i].body)
            } by {
                lemma_alike_sym_expr(m1@[i].pattern, m2@[i].pattern);
                lemma_alike_sym_expr(m1@[i].body, m2@[i].body);
            }
        },
        (Expression::Field { object: o1, .. }, Expression::Field { object: o2, .. }) => {
            lemma_alike_sym_expr(*o1, *o2);
        },
        (
            Expression::MethodCall { object: o1, args: a1, .. },
            Expression::MethodCall { object: o2, args: a2, .. },
        ) => {
            lemma_alike_sym_expr(*o1, *o2);
            assert forall|i: int| 0 <= i < a2@.len() implies alike_expr(#[trigger] a2@[i], a1@[i]) by {
                lemma_alike_sym_expr(a1@[i], a2@[i]);
            }
        },
        (
            Expression::Lambda { body: b1, .. },
            Expression::Lambda { body: b2, .. },
        ) => {
            assert forall|i: int| 0 <= i < b2@.len() implies alike_stmt(#[trigger] b2@[i], b1@[i]) by {
                lemma_alike_sym_stmt(b1@[i], b2@[i]);
            }
        },
        (
            Expression::Range { start: s1, end: e1, .. },
            Expression::Range { start: s2, end: e2, .. },
        ) => {
            match (s1, s2) {
                (Some(x), Some(y)) => lemma_alike_sym_expr(*x, *y),
                _ => {},
            }
            match (e1, e2) {
                (Some(x), Some(y)) => lemma_alike_sym_expr(*x, *y),
                _ => {},
            }
        },
        _ => {},
    }
}

proof fn lemma_alike_sym_block(b1: Seq<Statement>, b2: Seq<Statement>)
    requires
        b1.len() == b2.len(),
        forall|i: int| 0 <= i < b1.len() ==> alike_stmt(#[trigger] b1[i], b2[i]),
    ensures
        forall|i: int| 0 <= i < b2.len() ==> alike_stmt(#[trigger] b2[i], b1[i]),
    decreases b1,
{
    assert forall|i: int| 0 <= i < b2.len() implies alike_stmt(#[trigger] b2[i], b1[i]) by {
        lemma_alike_sym_stmt(b1[i], b2[i]);
    }
}

proof fn lemma_alike_sym_stmt(a: Statement, b: Statement)
    requires
        alike_stmt(a, b),
    ensures
        alike_stmt(b, a),
    decreases a,
{
    match (a, b) {
        (
            Statement::Expression { expression: x, .. },
            Statement::Expression { expression: y, .. },
        ) => {
            lemma_alike_sym_expr(x, y);
        },
        (Statement::Var { value: v1, .. }, Statement::Var { value: v2, .. }) => {
            lemma_alike_sym_expr(v1, v2);
        },
        (Statement::Let { value: v1, .. }, Statement::Let { value: v2, .. }) => {
            lemma_alike_sym_expr(v1, v2);
        },
        (Statement::Const { value: v1, .. }, Statement::Const { value: v2, .. }) => {
            lemma_alike_sym_expr(v1, v2);
        },
        (Statement::If(x), Statement::If(y)) => {
            lemma_alike_sym_expr(x.condition, y.condition);
            lemma_alike_sym_block(x.then_block@, y.then_block@);
            lemma_alike_sym_block(x.else_block@, y.else_block@);
            assert forall|i: int| 0 <= i < y.else_if@.len() implies {
                &&& alike_expr((#[trigger] y.else_if@[i]).condition, x.else_if@[i].condition)
                &&& y.else_if@[i].block@.len() == x.else_if@[i].block@.len()
                &&& forall|j: int|
                    0 <= j < y.else_if@[i].block@.len() ==> alike_stmt(
                        #[trigger] y.else_if@[i].block@[j],
                        x.else_if@[i].block@[j],
                    )
            } by {
                lemma_alike_sym_expr(x.else_if@[i].condition, y.else_if@[i].condition);
                lemma_alike_sym_block(x.else_if@[i].block@, y.else_if@[i].block@);
            }
        },
        (
            Statement::ForCondition { condition: c1, body: b1, .. },
            Statement::ForCondition { condition: c2, body: b2, .. },
        ) => {
            lemma_alike_sym_expr(c1, c2);
            lemma_alike_sym_block(b1@, b2@);
        },
        (
            Statement::ForCounter { init: i1, condition: c1, post: p1, body: b1, .. },
            Statement::ForCounter { init: i2, condition: c2, post: p2, body: b2, .. },
        ) => {
            lemma_alike_sym_stmt(*i1, *i2);
            lemma_alike_sym_expr(c1, c2);
            lemma_alike_sym_expr(p1, p2);
            lemma_alike_sym_block(b1@, b2@);
        },
        (
            Statement::ForRange { iterable: it1, body: b1, .. },
            Statement::ForRange { iterable: it2, body: b2, .. },
        ) => {
            lemma_alike_sym_expr(it1, it2);
            lemma_alike_sym_block(b1@, b2@);
        },
        (Statement::Return { value: v1, .. }, Statement::Return { value: v2, .. }) => {
            match (v1, v2) {
                (Some(x), Some(y)) => lemma_alike_sym_expr(x, y),
                _ => {},
            }
        },
        (Statement::Fun { body: b1, .. }, Statement::Fun { body: b2, .. }) => {
            lemma_alike_sym_block(b1@, b2@);
        },
        _ => {},
    }
}

proof fn lemma_alike_trans_expr(a: Expression, b: Expression, c: Expression)
    requires
        alike_expr(a, b),
        alike_expr(b, c),
    ensures
        alike_expr(a, c),
    decreases a,
{
    match (a, b, c) {
        (
            Expression::StructLiteral { fields: f1, .. },
            Expression::StructLiteral { fields: f2, .. },
            Expression::StructLiteral { fields: f3, .. },
        ) => {
            assert forall|i: int| 0 <= i < f1@.len() implies {
                &&& (#[trigger] f1@[i]).field_name == f3@[i].field_name
                &&& alike_expr(*f1@[i].field_val, *f3@[i].field_val)
            } by {
                assert(f2@[i].field_name == f3@[i].field_name);
                lemma_alike_trans_expr(*f1@[i].field_val, *f2@[i].field_val, *f3@[i].field_val);
            }
        },
        (
            Expression::Prefix { right: r1, .. },
            Expression::Prefix { right: r2, .. },
            Expression::Prefix { right: r3, .. },
        ) => {
            lemma_alike_trans_expr(*r1, *r2, *r3);
        },
        (
            Expression::Infix { left: l1, right: r1, .. },
            Expression::Infix { left: l2, right: r2, .. },
            Expression::Infix { left: l3, right: r3, .. },
        ) => {
            lemma_alike_trans_expr(*l1, *l2, *l3);
            lemma_alike_trans_expr(*r1, *r2, *r3);
        },
        (
            Expression::Postfix { left: l1, .. },
            Expression::Postfix { left: l2, .. },
            Expression::Postfix { left: l3, .. },
        ) => {
            lemma_alike_trans_expr(*l1, *l2, *l3);
        },
        (
            Expression::Index { left: l1, index: i1, .. },
            Expression::Index { left: l2, index: i2, .. },
            Expression::Index { left: l3, index: i3, .. },
        ) => {
            lemma_alike_trans_expr(*l1, *l2, *l3);
            lemma_alike_trans_expr(*i1, *i2, *i3);
        },
        (
            Expression::Call { function: f1, args: a1, .. },
            Expression::Call { function: f2, args: a2, .. },
            Expression::Call { function: f3, args: a3, .. },
        ) => {
            lemma_alike_trans_expr(*f1, *f2, *f3);
            assert forall|i: int| 0 <= i < a1@.len() implies alike_expr(#[trigger] a1@[i], a3@[i]) by {
                lemma_alike_trans_expr(a1@[i], a2@[i], a3@[i]);
            }
        },
        (
            Expression::Block { body: b1, .. },
            Expression::Block { body: b2, .. },
            Expression::Block { body: b3, .. },
        ) => {
            lemma_alike_trans_block(b1@, b2@, b3@);
        },
        (
            Expression::Match { target: t1, arms: m1, .. },
            Expression::Match { target: t2, arms: m2, .. },
            Expression::Match { target: t3, arms: m3, .. },
        ) => {
            lemma_alike_trans_expr(*t1, *t2, *t3);
            assert forall|i: int| 0 <= i < m1@.len() implies {
                &&& alike_expr((#[trigger] m1@[i]).pattern, m3@[i].pattern)
                &&& alike_expr(m1@[i].body, m3@[i].body)
            } by {
                assert(alike_expr(m2@[i].pattern, m3@[i].pattern));
                lemma_alike_trans_expr(m1@[i].pattern, m2@[i].pattern, m3@[i].pattern);
                lemma_alike_trans_expr(m1@[i].body, m2@[i].body, m3@[i].body);
            }
        },
        (
            Expression::Field { object: o1, .. },
            Expression::Field { object: o2, .. },
            Expression::Field { object: o3, .. },
        ) => {
            lemma_alike_trans_expr(*o1, *o2, *o3);
        },
        (
            Expression::MethodCall { object: o1, args: a1, .. },
            Expression::MethodCall { object: o2, args: a2, .. },
            Expression::MethodCall { object: o3, args: a3, .. },
        ) => {
            lemma_alike_trans_expr(*o1, *o2, *o3);
            assert forall|i: int| 0 <= i < a1@.len() implies alike_expr(#[trigger] a1@[i], a3@[i]) by {
                lemma_alike_trans_expr(a1@[i], a2@[i], a3@[i]);
            }
        },
        (
            Expression::Lambda { body: b1, .. },
            Expression::Lambda { body: b2, .. },
            Expression::Lambda { body: b3, .. },
        ) => {
            lemma_alike_trans_block(b1@, b2@, b3@);
        },
        (
            Expression::Range { start: s1, end: e1, .. },
            Expression::Range { start: s2, end: e2, .. },
            Expression::Range { start: s3, end: e3, .. },
        ) => {
            match (s1, s2, s3) {
                (Some(x), Some(y), Some(z)) => lemma_alike_trans_expr(*x, *y, *z),
                _ => {},
            }
            match (e1, e2, e3) {
                (Some(x), Some(y), Some(z)) => lemma_alike_trans_expr(*x, *y, *z),
                _ => {},
            }
        },
        _ => {},
    }
}

proof fn lemma_alike_trans_block(b1: Seq<Statement>, b2: Seq<Statement>, b3: Seq<Statement>)
    requires
        b1.len() == b2.len(),
        b2.len() == b3.len(),
        forall|i: int| 0 <= i < b1.len() ==> alike_stmt(#[trigger] b1[i], b2[i]),
        forall|i: int| 0 <= i < b2.len() ==> alike_stmt(#[trigger] b2[i], b3[i]),
    ensures
        forall|i: int| 0 <= i < b1.len() ==> alike_stmt(#[trigger] b1[i], b3[i]),
    decreases b1,
{
    assert forall|i: int| 0 <= i < b1.len() implies alike_stmt(#[trigger] b1[i], b3[i]) by {
        lemma_alike_trans_stmt(b1[i], b2[i], b3[i]);
    }
}

proof fn lemma_alike_trans_stmt(a: Statement, b: Statement, c: Statement)
    requires
        alike_stmt(a, b),
        alike_stmt(b, c),
    ensures
        alike_stmt(a, c),
    decreases a,
{
    match (a, b, c) {
        (
            Statement::Expression { expression: x, .. },
            Statement::Expression { expression: y, .. },
            Statement::Expression { expression: z, .. },
        ) => {
            lemma_alike_trans_expr(x, y, z);
        },
        (
            Statement::Var { value: v1, .. },
            Statement::Var { value: v2, .. },
            Statement::Var { value: v3, .. },
        ) => {
            lemma_alike_trans_expr(v1, v2, v3);
        },
        (
            Statement::Let { value: v1, .. },
            Statement::Let { value: v2, .. },
            Statement::Let { value: v3, .. },
        ) => {
            lemma_alike_trans_expr(v1, v2, v3);
        },
        (
            Statement::Const { value: v1, .. },
            Statement::Const { value: v2, .. },
            Statement::Const { value: v3, .. },
        ) => {
            lemma_alike_trans_expr(v1, v2, v3);
        },
        (Statement::If(x), Statement::If(y), Statement::If(z)) => {
            lemma_alike_trans_expr(x.condition, y.condition, z.condition);
            lemma_alike_trans_block(x.then_block@, y.then_block@, z.then_block@);
            lemma_alike_trans_block(x.else_block@, y.else_block@, z.else_block@);
            assert forall|i: int| 0 <= i < x.else_if@.len() implies {
                &&& alike_expr((#[trigger] x.else_if@[i]).condition, z.else_if@[i].condition)
                &&& x.else_if@[i].block@.len() == z.else_if@[i].block@.len()
                &&& forall|j: int|
                    0 <= j < x.else_if@[i].block@.len() ==> alike_stmt(
                        #[trigger] x.else_if@[i].block@[j],
                        z.else_if@[i].block@[j],
                    )
            } by {
                assert(alike_expr(y.else_if@[i].condition, z.else_if@[i].condition));
                lemma_alike_trans_expr(
                    x.else_if@[i].condition,
                    y.else_if@[i].condition,
                    z.else_if@[i].condition,
                );
                lemma_alike_trans_block(
                    x.else_if@[i].block@,
                    y.else_if@[i].block@,
                    z.else_if@[i].block@,
                );
            }
        },
        (
            Statement::ForCondition { condition: c1, body: b1, .. },
            Statement::ForCondition { condition: c2, body: b2, .. },
            Statement::ForCondition { condition: c3, body: b3, .. },
        ) => {
            lemma_alike_trans_expr(c1, c2, c3);
            lemma_alike_trans_block(b1@, b2@, b3@);
        },
        (
            Statement::ForCounter { init: i1, condition: c1, post: p1, body: b1, .. },
            Statement::ForCounter { init: i2, condition: c2, post: p2, body: b2, .. },
            Statement::ForCounter { init: i3, condition: c3, post: p3, body: b3, .. },
        ) => {
            lemma_alike_trans_stmt(*i1, *i2, *i3);
            lemma_alike_trans_expr(c1, c2, c3);
            lemma_alike_trans_expr(p1, p2, p3);
            lemma_alike_trans_block(b1@, b2@, b3@);
        },
        (
            Statement::ForRange { iterable: it1, body: b1, .. },
            Statement::ForRange { iterable: it2, body: b2, .. },
            Statement::ForRange { iterable: it3, body: b3, .. },
        ) => {
            lemma_alike_trans_expr(it1, it2, it3);
            lemma_alike_trans_block(b1@, b2@, b3@);
        },
        (
            Statement::Return { value: v1, .. },
            Statement::Return { value: v2, .. },
            Statement::Return { value: v3, .. },
        ) => {
            match (v1, v2, v3) {
                (Some(x), Some(y), Some(z)) => lemma_alike_trans_expr(x, y, z),
                _ => {},
            }
        },
        (
            Statement::Fun { body: b1, .. },
            Statement::Fun { body: b2, .. },
            Statement::Fun { body: b3, .. },
        ) => {
            lemma_alike_trans_block(b1@, b2@, b3@);
        },
        _ => {},
    }
}

// ---------------------------------------------------------------------------
// Clearing forgets exactly the spans

/// Two expressions that differ only in their spans are the same tree once
/// their spans are cleared: `a2` and `b2` are what clearing leaves of `a` and
/// `b` (span-free, and alike what they were cleared from).
pub proof fn law_clearing_forgets_spans_expr(
    a: Expression,
    b: Expression,
    a2: Expression,
    b2: Expression,
)
    requires
        alike_expr(a, b),
        alike_expr(a, a2),
        no_spans_expr(a2),
        alike_expr(b, b2),
        no_spans_expr(b2),
    ensures
        expr_v(a2) == expr_v(b2),
{
    lemma_alike_sym_expr(a, a2);
    lemma_alike_trans_expr(a2, a, b);
    lemma_alike_trans_expr(a2, b, b2);
    law_span_free_alike_expr(a2, b2);
}

/// Two statements that differ only in their spans are the same tree once
/// their spans are cleared: `a2` and `b2` are what clearing leaves of `a` and
/// `b` (span-free, and alike what they were cleared from).
pub proof fn law_clearing_forgets_spans_stmt(a: Statement, b: Statement, a2: Statement, b2: Statement)
    requires
        alike_stmt(a, b),
        alike_stmt(a, a2),
        no_spans_stmt(a2),
        alike_stmt(b, b2),
        no_spans_stmt(b2),
    ensures
        stmt_v(a2) == stmt_v(b2),
{
    lemma_alike_sym_stmt(a, a2);
    lemma_alike_trans_stmt(a2, a, b);
    lemma_alike_trans_stmt(a2, b, b2);
    law_span_free_alike_stmt(a2, b2);
}

} // verus!
