use vstd::prelude::*;
use crate::lexer::span::Span;
use crate::lexer::token::Token;
use crate::typechecker::types::Ty;

verus! {

/// How a name was bound.
#[derive(Debug, Clone, Copy, PartialEq, Eq, Structural)]
pub enum BindingKind {
    Var,
    Let,
    Const,
}

impl BindingKind {
    /// Only `var` bindings may be assigned to.
    pub fn is_mutable(self) -> (r: bool)
        ensures
            r == (self == BindingKind::Var),
    {
        matches!(self, BindingKind::Var)
    }
}

/// The errors the type checker reports.
#[derive(Debug, Clone, PartialEq)]
pub enum TypeError {
    Mismatch { expected: Ty, found: Ty, span: Span },
    UnknownName { name: String, span: Span },
    NotCallable { ty: Ty, span: Span },
    ArityMismatch { name: String, expected: usize, found: usize, span: Span },
    UnknownField { struct_name: String, field: String, span: Span },
    InvalidBinaryOperator { operator: Token, left: Ty, right: Ty, span: Span },
    InvalidUnaryOperator { operator: Token, operand: Ty, span: Span },
    NoFields { ty: Ty, span: Span },
    Unsupported { desc: String, span: Span },
    DuplicateDefinition { name: String, span: Span },
    ConflictingEntryPoint { first_decl_span: Span, second_decl_span: Span },
    AssignmentToImmutable { name: String, kind: BindingKind, decl_span: Span, assign_span: Span },
}

} // verus!
