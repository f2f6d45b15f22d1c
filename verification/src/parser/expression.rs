use vstd::prelude::*;
use crate::lexer::span::Span;
use crate::lexer::token::Token;
use crate::parser::statement::{FunParam, MatchArm, Statement};
use crate::parser::types::Type;
use crate::parser::precedence::Precedence;

verus! {

/// The expressions of the language.
#[derive(Debug, PartialEq)]
pub enum Expression {
    Identifier { name: String, span: Span },
    IntLiteral { val: isize, span: Span },
    /// A floating-point literal, kept as the text it was written with.
    FloatLiteral { val: String, span: Span },
    BoolLiteral { val: bool, span: Span },
    StringLiteral { val: String, span: Span },
    StructLiteral { name: String, fields: Vec<StructLiteralField>, span: Span },
    Prefix { operator: Token, right: Box<Expression>, span: Span },
    Infix { left: Box<Expression>, operator: Token, right: Box<Expression>, span: Span },
    Postfix { left: Box<Expression>, operator: Token, span: Span },
    Index { left: Box<Expression>, index: Box<Expression>, span: Span },
    Call { function: Box<Expression>, args: Vec<Expression>, span: Span },
    Block { body: Vec<Statement>, span: Span },
    Match { target: Box<Expression>, arms: Vec<MatchArm>, span: Span },
    Field { object: Box<Expression>, name: String, span: Span },
    MethodCall { object: Box<Expression>, name: String, args: Vec<Expression>, span: Span },
    Lambda { params: Vec<FunParam>, return_type: Option<Type>, body: Vec<Statement>, span: Span },
    Range {
        start: Option<Box<Expression>>,
        end: Option<Box<Expression>>,
        range_kind: RangeKind,
        span: Span,
    },
}

/// `name: value` inside a struct literal.
#[derive(Debug, PartialEq)]
pub struct StructLiteralField {
    pub field_name: String,
    pub field_val: Box<Expression>,
}

/// Whether a range includes its right bound.
#[derive(Debug, PartialEq, Eq, Clone, Copy, Structural)]
pub enum RangeKind {
    /// Exclusive range: `1:10` does not include the right bound, `1, 2, .., 9`.
    Exclusive,
    /// Inclusive range: `1..10` includes the right bound, `1, 2, .., 10`.
    Inclusive,
}

/// How strongly a token binds when it stands after an operand.
pub open spec fn spec_token_precedence(token: Token) -> Precedence {
    match token {
        Token::Assign | Token::AddAndAssign | Token::SubAndAssign | Token::MulAndAssign
        | Token::DivAndAssign | Token::ModAndAssign => Precedence::Assign,
        Token::Equals | Token::NotEquals => Precedence::Equals,
        Token::LogicOr => Precedence::LogicOr,
        Token::LogicAnd => Precedence::LogicAnd,
        Token::BitOr => Precedence::BitOr,
        Token::BitXOR => Precedence::BitXor,
        Token::BitAnd => Precedence::BitAnd,
        Token::Less | Token::Greater | Token::LessOrEquals | Token::GreaterOrEquals => Precedence::LessGreater,
        Token::Sprout => Precedence::Sprout,
        Token::LeftShift | Token::RightShift => Precedence::Shift,
        Token::Colon | Token::DoubleDot => Precedence::Range,
        Token::Add | Token::Subtract => Precedence::Sum,
        Token::Multiply | Token::Divide | Token::Modulus => Precedence::Product,
        Token::Power => Precedence::Power,
        Token::Increment | Token::Decrement | Token::LeftParen | Token::LeftBracket | Token::Pipe
        | Token::Dot => Precedence::Postfix,
        _ => Precedence::Lowest,
    }
}

/// How strongly a token binds when it stands after an operand: assignments
/// weakest, then `||`, `&&`, `#`, `^`, `&`, equality, comparisons, `~>`, shifts,
/// ranges, sums, products, `**`, and the postfix forms (`++`, `--`, calls,
/// indexing, `|`, `.`) strongest; every other token binds not at all.
pub fn token_precedence(token: &Token) -> (p: Precedence)
    ensures
        p == spec_token_precedence(*token),
{
    match token {
        Token::Assign | Token::AddAndAssign | Token::SubAndAssign | Token::MulAndAssign
        | Token::DivAndAssign | Token::ModAndAssign => Precedence::Assign,
        Token::Equals | Token::NotEquals => Precedence::Equals,
        Token::LogicOr => Precedence::LogicOr,
        Token::LogicAnd => Precedence::LogicAnd,
        Token::BitOr => Precedence::BitOr,
        Token::BitXOR => Precedence::BitXor,
        Token::BitAnd => Precedence::BitAnd,
        Token::Less | Token::Greater | Token::LessOrEquals | Token::GreaterOrEquals => Precedence::LessGreater,
        Token::Sprout => Precedence::Sprout,
        Token::LeftShift | Token::RightShift => Precedence::Shift,
        Token::Colon | Token::DoubleDot => Precedence::Range,
        Token::Add | Token::Subtract => Precedence::Sum,
        Token::Multiply | Token::Divide | Token::Modulus => Precedence::Product,
        Token::Power => Precedence::Power,
        Token::Increment | Token::Decrement | Token::LeftParen | Token::LeftBracket | Token::Pipe
        | Token::Dot => Precedence::Postfix,
        _ => Precedence::Lowest,
    }
}

/// The span an expression was built with.
pub open spec fn expr_span(e: Expression) -> Span {
    match e {
        Expression::Identifier { span, .. } => span,
        Expression::IntLiteral { span, .. } => span,
        Expression::FloatLiteral { span, .. } => span,
        Expression::BoolLiteral { span, .. } => span,
        Expression::StringLiteral { span, .. } => span,
        Expression::StructLiteral { span, .. } => span,
        Expression::Prefix { span, .. } => span,
        Expression::Infix { span, .. } => span,
        Expression::Postfix { span, .. } => span,
        Expression::Index { span, .. } => span,
        Expression::Call { span, .. } => span,
        Expression::Block { span, .. } => span,
        Expression::Match { span, .. } => span,
        Expression::Field { span, .. } => span,
        Expression::MethodCall { span, .. } => span,
        Expression::Lambda { span, .. } => span,
        Expression::Range { span, .. } => span,
    }
}

impl Expression {
    /// Where the expression starts in the source.
    pub fn span(&self) -> (s: Span)
        ensures
            s == expr_span(*self),
    {
        match self {
            Expression::Identifier { span, .. } => *span,
            Expression::IntLiteral { span, .. } => *span,
            Expression::FloatLiteral { span, .. } => *span,
            Expression::BoolLiteral { span, .. } => *span,
            Expression::StringLiteral { span, .. } => *span,
            Expression::StructLiteral { span, .. } => *span,
            Expression::Prefix { span, .. } => *span,
            Expression::Infix { span, .. } => *span,
            Expression::Postfix { span, .. } => *span,
            Expression::Index { span, .. } => *span,
            Expression::Call { span, .. } => *span,
            Expression::Block { span, .. } => *span,
            Expression::Match { span, .. } => *span,
            Expression::Field { span, .. } => *span,
            Expression::MethodCall { span, .. } => *span,
            Expression::Lambda { span, .. } => *span,
            Expression::Range { span, .. } => *span,
        }
    }
}

} // verus!
