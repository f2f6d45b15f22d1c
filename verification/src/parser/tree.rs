//! The syntax tree as mathematical values: names and texts as character
//! sequences, lists as sequences.
use vstd::prelude::*;
use crate::lexer::span::Span;
use crate::lexer::token::{PrimitiveType, Token};
use crate::parser::expression::{Expression, RangeKind, StructLiteralField};
use crate::parser::program::Program;
use crate::parser::statement::{ElseIf, FunParam, MatchArm, Statement};
use crate::parser::types::Type;

verus! {

/// A type as written.
pub enum TypeV {
    Primitive(PrimitiveType),
    Named(Seq<Seq<char>>),
    Generic { name: Seq<char>, param: Box<TypeV> },
    Union(Seq<TypeV>),
}

/// A parameter of a function or a field of a struct.
pub struct ParamV {
    pub name: Seq<char>,
    pub ty: TypeV,
    pub span: Span,
}

/// An expression.
pub enum ExprV {
    Identifier { name: Seq<char>, span: Span },
    IntLiteral { val: isize, span: Span },
    FloatLiteral { val: Seq<char>, span: Span },
    BoolLiteral { val: bool, span: Span },
    StringLiteral { val: Seq<char>, span: Span },
    StructLiteral { name: Seq<char>, fields: Seq<(Seq<char>, ExprV)>, span: Span },
    Prefix { operator: Token, right: Box<ExprV>, span: Span },
    Infix { left: Box<ExprV>, operator: Token, right: Box<ExprV>, span: Span },
    Postfix { left: Box<ExprV>, operator: Token, span: Span },
    Index { left: Box<ExprV>, index: Box<ExprV>, span: Span },
    Call { function: Box<ExprV>, args: Seq<ExprV>, span: Span },
    Block { body: Seq<StmtV>, span: Span },
    Match { target: Box<ExprV>, arms: Seq<ArmV>, span: Span },
    Field { object: Box<ExprV>, name: Seq<char>, span: Span },
    MethodCall { object: Box<ExprV>, name: Seq<char>, args: Seq<ExprV>, span: Span },
    Lambda { params: Seq<ParamV>, return_type: Option<TypeV>, body: Seq<StmtV>, span: Span },
    Range {
        start: Option<Box<ExprV>>,
        end: Option<Box<ExprV>>,
        range_kind: RangeKind,
        span: Span,
    },
}

/// One arm of a `match`.
pub struct ArmV {
    pub pattern: ExprV,
    pub body: ExprV,
    pub span: Span,
}

/// An `else if` branch.
pub struct ElseIfV {
    pub condition: ExprV,
    pub block: Seq<StmtV>,
    pub span: Span,
}

/// A statement.
pub enum StmtV {
    Expression { expression: ExprV, span: Span },
    Var { name: Seq<char>, value: ExprV, span: Span },
    Let { name: Seq<char>, value: ExprV, span: Span },
    Const { name: Seq<char>, value: ExprV, span: Span },
    If {
        condition: ExprV,
        then_block: Seq<StmtV>,
        else_if: Seq<ElseIfV>,
        else_block: Seq<StmtV>,
        span: Span,
    },
    ForCondition { condition: ExprV, body: Seq<StmtV>, span: Span },
    ForCounter {
        init: Box<StmtV>,
        condition: ExprV,
        post: ExprV,
        body: Seq<StmtV>,
        span: Span,
    },
    ForRange { variable: Seq<char>, iterable: ExprV, body: Seq<StmtV>, span: Span },
    Return { value: Option<ExprV>, span: Span },
    Fun {
        name: Seq<char>,
        params: Seq<ParamV>,
        return_type: Option<TypeV>,
        body: Seq<StmtV>,
        span: Span,
    },
    Struct { name: Seq<char>, fields: Seq<ParamV>, span: Span },
}

/// A program: its declarations and its top-level statements.
pub struct ProgramV {
    pub declarations: Seq<StmtV>,
    pub main: Seq<StmtV>,
}

pub open spec fn type_v(t: Type) -> TypeV
    decreases t,
{
    match t {
        Type::Primitive(p) => TypeV::Primitive(p),
        Type::Named(path) => TypeV::Named(
            Seq::new(path.segments@.len(), |i: int| path.segments@[i]@),
        ),
        Type::Generic { name, param } => TypeV::Generic { name: name@, param: Box::new(type_v(*param)) },
        Type::Union(ts) => TypeV::Union(
            Seq::new(
                ts@.len(),
                |i: int| if 0 <= i < ts@.len() {
                    type_v(ts@[i])
                } else {
                    TypeV::Named(Seq::empty())
                },
            ),
        ),
    }
}

pub open spec fn type_opt_v(t: Option<Type>) -> Option<TypeV> {
    match t {
        Some(x) => Some(type_v(x)),
        None => None,
    }
}

pub open spec fn param_v(p: FunParam) -> ParamV {
    ParamV { name: p.name@, ty: type_v(p.param_type), span: p.span }
}

pub open spec fn params_v(ps: Seq<FunParam>) -> Seq<ParamV> {
    Seq::new(ps.len(), |i: int| param_v(ps[i]))
}

pub open spec fn expr_v(e: Expression) -> ExprV
    decreases e,
{
    match e {
        Expression::Identifier { name, span } => ExprV::Identifier { name: name@, span },
        Expression::IntLiteral { val, span } => ExprV::IntLiteral { val, span },
        Expression::FloatLiteral { val, span } => ExprV::FloatLiteral { val: val@, span },
        Expression::BoolLiteral { val, span } => ExprV::BoolLiteral { val, span },
        Expression::StringLiteral { val, span } => ExprV::StringLiteral { val: val@, span },
        Expression::StructLiteral { name, fields, span } => ExprV::StructLiteral {
            name: name@,
            fields: Seq::new(
                fields@.len(),
                |i: int| if 0 <= i < fields@.len() {
                    (fields@[i].field_name@, expr_v(*fields@[i].field_val))
                } else {
                    (Seq::empty(), ExprV::BoolLiteral { val: false, span })
                },
            ),
            span,
        },
        Expression::Prefix { operator, right, span } => ExprV::Prefix {
            operator,
            right: Box::new(expr_v(*right)),
            span,
        },
        Expression::Infix { left, operator, right, span } => ExprV::Infix {
            left: Box::new(expr_v(*left)),
            operator,
            right: Box::new(expr_v(*right)),
            span,
        },
        Expression::Postfix { left, operator, span } => ExprV::Postfix {
            left: Box::new(expr_v(*left)),
            operator,
            span,
        },
        Expression::Index { left, index, span } => ExprV::Index {
            left: Box::new(expr_v(*left)),
            index: Box::new(expr_v(*index)),
            span,
        },
        Expression::Call { function, args, span } => ExprV::Call {
            function: Box::new(expr_v(*function)),
            args: Seq::new(
                args@.len(),
                |i: int| if 0 <= i < args@.len() {
                    expr_v(args@[i])
                } else {
                    ExprV::BoolLiteral { val: false, span }
                },
            ),
            span,
        },
        Expression::Block { body, span } => ExprV::Block {
            body: Seq::new(
                body@.len(),
                |i: int| if 0 <= i < body@.len() {
                    stmt_v(body@[i])
                } else {
                    StmtV::Return { value: None, span }
                },
            ),
            span,
        },
        Expression::Match { target, arms, span } => ExprV::Match {
            target: Box::new(expr_v(*target)),
            arms: Seq::new(
                arms@.len(),
                |i: int| if 0 <= i < arms@.len() {
                    ArmV {
                        pattern: expr_v(arms@[i].pattern),
                        body: expr_v(arms@[i].body),
                        span: arms@[i].span,
                    }
                } else {
                    ArmV {
                        pattern: ExprV::BoolLiteral { val: false, span },
                        body: ExprV::BoolLiteral { val: false, span },
                        span,
                    }
                },
            ),
            span,
        },
        Expression::Field { object, name, span } => ExprV::Field {
            object: Box::new(expr_v(*object)),
            name: name@,
            span,
        },
        Expression::MethodCall { object, name, args, span } => ExprV::MethodCall {
            object: Box::new(expr_v(*object)),
            name: name@,
            args: Seq::new(
                args@.len(),
                |i: int| if 0 <= i < args@.len() {
                    expr_v(args@[i])
                } else {
                    ExprV::BoolLiteral { val: false, span }
                },
            ),
            span,
        },
        Expression::Lambda { params, return_type, body, span } => ExprV::Lambda {
            params: params_v(params@),
            return_type: type_opt_v(return_type),
            body: Seq::new(
                body@.len(),
                |i: int| if 0 <= i < body@.len() {
                    stmt_v(body@[i])
                } else {
                    StmtV::Return { value: None, span }
                },
            ),
            span,
        },
        Expression::Range { start, end, range_kind, span } => ExprV::Range {
            start: match start {
                Some(s) => Some(Box::new(expr_v(*s))),
                None => None,
            },
            end: match end {
                Some(x) => Some(Box::new(expr_v(*x))),
                None => None,
            },
            range_kind,
            span,
        },
    }
}

pub open spec fn stmt_v(s: Statement) -> StmtV
    decreases s,
{
    match s {
        Statement::Expression { expression, span } => StmtV::Expression {
            expression: expr_v(expression),
            span,
        },
        Statement::Var { name, value, span } => StmtV::Var { name: name@, value: expr_v(value), span },
        Statement::Let { name, value, span } => StmtV::Let { name: name@, value: expr_v(value), span },
        Statement::Const { name, value, span } => StmtV::Const {
            name: name@,
            value: expr_v(value),
            span,
        },
        Statement::If(st) => StmtV::If {
            condition: expr_v(st.condition),
            then_block: Seq::new(
                st.then_block@.len(),
                |i: int| if 0 <= i < st.then_block@.len() {
                    stmt_v(st.then_block@[i])
                } else {
                    StmtV::Return { value: None, span: st.span }
                },
            ),
            else_if: Seq::new(
                st.else_if@.len(),
                |i: int| if 0 <= i < st.else_if@.len() {
                    ElseIfV {
                        condition: expr_v(st.else_if@[i].condition),
                        block: Seq::new(
                            st.else_if@[i].block@.len(),
                            |j: int| if 0 <= j < st.else_if@[i].block@.len() {
                                stmt_v(st.else_if@[i].block@[j])
                            } else {
                                StmtV::Return { value: None, span: st.span }
                            },
                        ),
                        span: st.else_if@[i].span,
                    }
                } else {
                    ElseIfV {
                        condition: ExprV::BoolLiteral { val: false, span: st.span },
                        block: Seq::empty(),
                        span: st.span,
                    }
                },
            ),
            else_block: Seq::new(
                st.else_block@.len(),
                |i: int| if 0 <= i < st.else_block@.len() {
                    stmt_v(st.else_block@[i])
                } else {
                    StmtV::Return { value: None, span: st.span }
                },
            ),
            span: st.span,
        },
        Statement::ForCondition { condition, body, span } => StmtV::ForCondition {
            condition: expr_v(condition),
            body: Seq::new(
                body@.len(),
                |i: int| if 0 <= i < body@.len() {
                    stmt_v(body@[i])
                } else {
                    StmtV::Return { value: None, span }
                },
            ),
            span,
        },
        Statement::ForCounter { init, condition, post, body, span } => StmtV::ForCounter {
            init: Box::new(stmt_v(*init)),
            condition: expr_v(condition),
            post: expr_v(post),
            body: Seq::new(
                body@.len(),
                |i: int| if 0 <= i < body@.len() {
                    stmt_v(body@[i])
                } else {
                    StmtV::Return { value: None, span }
                },
            ),
            span,
        },
        Statement::ForRange { variable, iterable, body, span } => StmtV::ForRange {
            variable: variable@,
            iterable: expr_v(iterable),
            body: Seq::new(
                body@.len(),
                |i: int| if 0 <= i < body@.len() {
                    stmt_v(body@[i])
                } else {
                    StmtV::Return { value: None, span }
                },
            ),
            span,
        },
        Statement::Return { value, span } => StmtV::Return {
            value: match value {
                Some(v) => Some(expr_v(v)),
                None => None,
            },
            span,
        },
        Statement::Fun { name, params, return_type, body, span } => StmtV::Fun {
            name: name@,
            params: params_v(params@),
            return_type: type_opt_v(return_type),
            body: Seq::new(
                body@.len(),
                |i: int| if 0 <= i < body@.len() {
                    stmt_v(body@[i])
                } else {
                    StmtV::Return { value: None, span }
                },
            ),
            span,
        },
        Statement::Struct { name, fields, span } => StmtV::Struct {
            name: name@,
            fields: params_v(fields@),
            span,
        },
    }
}

pub open spec fn exprs_v(es: Seq<Expression>) -> Seq<ExprV> {
    Seq::new(es.len(), |i: int| expr_v(es[i]))
}

pub open spec fn stmts_v(ss: Seq<Statement>) -> Seq<StmtV> {
    Seq::new(ss.len(), |i: int| stmt_v(ss[i]))
}

pub open spec fn fields_v(fs: Seq<StructLiteralField>) -> Seq<(Seq<char>, ExprV)> {
    Seq::new(fs.len(), |i: int| (fs[i].field_name@, expr_v(*fs[i].field_val)))
}

pub open spec fn arms_v(arms: Seq<MatchArm>) -> Seq<ArmV> {
    Seq::new(
        arms.len(),
        |i: int| ArmV { pattern: expr_v(arms[i].pattern), body: expr_v(arms[i].body), span: arms[i].span },
    )
}

pub open spec fn else_ifs_v(eis: Seq<ElseIf>) -> Seq<ElseIfV> {
    Seq::new(
        eis.len(),
        |i: int| ElseIfV {
            condition: expr_v(eis[i].condition),
            block: stmts_v(eis[i].block@),
            span: eis[i].span,
        },
    )
}

pub open spec fn types_v(ts: Seq<Type>) -> Seq<TypeV> {
    Seq::new(ts.len(), |i: int| type_v(ts[i]))
}

pub open spec fn program_v(p: Program) -> ProgramV {
    ProgramV { declarations: stmts_v(p.declarations@), main: stmts_v(p.main@) }
}

} // verus!
