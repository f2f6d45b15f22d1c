use vstd::prelude::*;
use crate::lexer::token::Token;
use crate::parser::expression::Expression;
use crate::parser::spans::{
    alike_expr, alike_stmt, cleared_expr, cleared_stmt, no_spans_expr, no_spans_stmt,
};
use crate::parser::statement::{FunParam, MatchArm, Statement};

verus! {

/// A point in the source text.
#[derive(Debug, Clone, Copy, PartialEq, Eq, PartialOrd, Ord, Default, Structural)]
pub struct Position {
    /// 1-based line number.
    pub line: usize,
    /// 1-based column number.
    pub col: usize,
}

/// Lexicographic order on positions: first by line, then by column.
pub open spec fn pos_le(a: Position, b: Position) -> bool {
    a.line < b.line || (a.line == b.line && a.col <= b.col)
}

pub open spec fn spec_pos_min(a: Position, b: Position) -> Position {
    if pos_le(a, b) { a } else { b }
}

pub open spec fn spec_pos_max(a: Position, b: Position) -> Position {
    if pos_le(a, b) { b } else { a }
}

impl Position {
    pub fn new(line: usize, col: usize) -> (p: Self)
        ensures
            p.line == line,
            p.col == col,
    {
        Position { line, col }
    }

    /// The earlier of two positions.
    pub fn min_of(self, other: Position) -> (r: Position)
        ensures
            r == spec_pos_min(self, other),
    {
        if self.line < other.line || (self.line == other.line && self.col <= other.col) {
            self
        } else {
            other
        }
    }

    /// The later of two positions.
    pub fn max_of(self, other: Position) -> (r: Position)
        ensures
            r == spec_pos_max(self, other),
    {
        if self.line < other.line || (self.line == other.line && self.col <= other.col) {
            other
        } else {
            self
        }
    }
}

/// Source code location represented by line and column numbers.
///
/// Used for diagnostic reporting and error tracking.
#[derive(Debug, Clone, Copy, PartialEq, Eq, Default, Structural)]
pub struct Span {
    pub start: Position,
    pub end: Position,
}

/// The span every field of which is zero: what `Span::default()` gives.
pub open spec fn zero_span() -> Span {
    Span { start: Position { line: 0, col: 0 }, end: Position { line: 0, col: 0 } }
}

pub open spec fn spec_merge(a: Span, b: Span) -> Span {
    Span { start: spec_pos_min(a.start, b.start), end: spec_pos_max(a.end, b.end) }
}

impl Span {
    pub fn new(start: Position, end: Position) -> (s: Self)
        ensures
            s.start == start,
            s.end == end,
    {
        Span { start, end }
    }

    /// The zero span.
    pub fn zero() -> (s: Self)
        ensures
            s == zero_span(),
    {
        Span { start: Position { line: 0, col: 0 }, end: Position { line: 0, col: 0 } }
    }

    /// The smallest span that starts where the earlier of the two starts and ends
    /// where the later of the two ends.
    pub fn merge(&self, other: &Span) -> (r: Span)
        ensures
            r == spec_merge(*self, *other),
    {
        Span { start: self.start.min_of(other.start), end: self.end.max_of(other.end) }
    }
}

/// Merging does not depend on the order of the two spans.
pub proof fn law_merge_commutative(a: Span, b: Span)
    ensures
        spec_merge(a, b) == spec_merge(b, a),
{
}

/// Merging three spans gives the same span however they are grouped.
pub proof fn law_merge_associative(a: Span, b: Span, c: Span)
    ensures
        spec_merge(spec_merge(a, b), c) == spec_merge(a, spec_merge(b, c)),
{
}

/// Merging a span with itself gives it back.
pub proof fn law_merge_idempotent(a: Span)
    ensures
        spec_merge(a, a) == a,
{
}

/// The merged span starts no later and ends no earlier than either span, and
/// it starts where one of them starts and ends where one of them ends.
pub proof fn law_merge_covers(a: Span, b: Span)
    ensures
        pos_le(spec_merge(a, b).start, a.start),
        pos_le(spec_merge(a, b).start, b.start),
        pos_le(a.end, spec_merge(a, b).end),
        pos_le(b.end, spec_merge(a, b).end),
        spec_merge(a, b).start == a.start || spec_merge(a, b).start == b.start,
        spec_merge(a, b).end == a.end || spec_merge(a, b).end == b.end,
{
}

/// Token paired with its source code location.
#[derive(Debug, PartialEq)]
pub struct SpannedToken {
    pub token: Token,
    pub span: Span,
}

impl Clone for SpannedToken {
    fn clone(&self) -> (r: Self)
        ensures
            r == *self,
    {
        SpannedToken { token: self.token.clone(), span: self.span }
    }
}

/// Values that carry source locations which can be erased, leaving what the
/// value says without where it was written.
pub trait ClearSpan: Sized {
    /// Every span in the value that clearing replaces is the zero span (the
    /// parameters of a lambda keep their spans).
    spec fn spans_cleared(&self) -> bool;

    /// The two values are equal once their spans are ignored.
    spec fn alike(&self, other: &Self) -> bool;

    /// Replaces the spans in the value by the zero span, all but those of
    /// lambda parameters, and changes nothing else.
    fn clear_span(&mut self)
        ensures
            final(self).spans_cleared(),
            old(self).alike(final(self)),
    ;
}

impl ClearSpan for Expression {
    open spec fn spans_cleared(&self) -> bool {
        no_spans_expr(*self)
    }

    open spec fn alike(&self, other: &Self) -> bool {
        alike_expr(*self, *other)
    }

    fn clear_span(&mut self) {
        let mut taken = Expression::BoolLiteral { val: false, span: Span::zero() };
        std::mem::swap(&mut taken, self);
        *self = cleared_expr(taken);
    }
}

impl ClearSpan for Statement {
    open spec fn spans_cleared(&self) -> bool {
        no_spans_stmt(*self)
    }

    open spec fn alike(&self, other: &Self) -> bool {
        alike_stmt(*self, *other)
    }

    fn clear_span(&mut self) {
        let mut taken = Statement::Return { value: None, span: Span::zero() };
        std::mem::swap(&mut taken, self);
        *self = cleared_stmt(taken);
    }
}

impl ClearSpan for MatchArm {
    open spec fn spans_cleared(&self) -> bool {
        &&& self.span == zero_span()
        &&& no_spans_expr(self.pattern)
        &&& no_spans_expr(self.body)
    }

    open spec fn alike(&self, other: &Self) -> bool {
        alike_expr(self.pattern, other.pattern) && alike_expr(self.body, other.body)
    }

    fn clear_span(&mut self) {
        self.pattern.clear_span();
        self.body.clear_span();
        self.span = Span::zero();
    }
}

impl ClearSpan for FunParam {
    open spec fn spans_cleared(&self) -> bool {
        self.span == zero_span()
    }

    open spec fn alike(&self, other: &Self) -> bool {
        self.name == other.name && self.param_type == other.param_type
    }

    fn clear_span(&mut self) {
        self.span = Span::zero();
    }
}

} // verus!
