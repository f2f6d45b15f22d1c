use vstd::prelude::*;
use crate::lexer::span::Span;
use crate::parser::expression::Expression;
use crate::parser::types::Type;

verus! {

/// A parameter of a function: a name and its type.
#[derive(Debug, PartialEq)]
pub struct FunParam {
    pub name: String,
    pub param_type: Type,
    pub span: Span,
}

/// A field of a struct declaration: written like a function parameter.
pub type StructParam = FunParam;

/// One arm of a `match` expression.
#[derive(Debug, PartialEq)]
pub struct MatchArm {
    pub pattern: Expression,
    pub body: Expression,
    pub span: Span,
}

/// An `else if` branch.
#[derive(Debug, PartialEq)]
pub struct ElseIf {
    pub condition: Expression,
    pub block: Vec<Statement>,
    pub span: Span,
}

/// An `if` statement with its `else if` branches and `else` block.
#[derive(Debug, PartialEq)]
pub struct IfStatement {
    pub condition: Expression,
    pub then_block: Vec<Statement>,
    pub else_if: Vec<ElseIf>,
    pub else_block: Vec<Statement>,
    pub span: Span,
}

/// The statements of the language.
#[derive(Debug, PartialEq)]
pub enum Statement {
    Expression { expression: Expression, span: Span },
    Var { name: String, value: Expression, span: Span },
    Let { name: String, value: Expression, span: Span },
    Const { name: String, value: Expression, span: Span },
    If(IfStatement),
    /// `for condition { .. }`
    ForCondition { condition: Expression, body: Vec<Statement>, span: Span },
    /// `for init; condition; post { .. }`
    ForCounter {
        init: Box<Statement>,
        condition: Expression,
        post: Expression,
        body: Vec<Statement>,
        span: Span,
    },
    /// `for variable in iterable { .. }`
    ForRange { variable: String, iterable: Expression, body: Vec<Statement>, span: Span },
    Return { value: Option<Expression>, span: Span },
    Fun {
        name: String,
        params: Vec<FunParam>,
        return_type: Option<Type>,
        body: Vec<Statement>,
        span: Span,
    },
    Struct { name: String, fields: Vec<StructParam>, span: Span },
}

} // verus!
