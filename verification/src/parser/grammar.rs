//! What the parser produces, stated as functions of the tokens and of the
//! position it starts at.
//!
//! Each function gives either the tree parsed and the position the cursor
//! ends at, or the error. A position never moves back; where a function goes on
//! from a position that an inner parse returned, it first checks that the
//! position moved forward, which makes termination evident.
use vstd::prelude::*;
use crate::lexer::span::{Span, SpannedToken};
use crate::lexer::token::{Token, spec_kind};
use crate::parser::error::ParseError;
use crate::parser::expression::{RangeKind, spec_token_precedence};
use crate::parser::parser::{MAX_DEPTH, spec_primitive_named};
use crate::parser::precedence::{Precedence, spec_rank};
use crate::parser::tree::{
    ArmV, ElseIfV, ExprV, ParamV, ProgramV, StmtV, TypeV, expr_v, exprs_v, params_v, program_v,
    stmt_v, stmts_v, type_v,
};
use crate::parser::expression::Expression;
use crate::parser::program::Program;
use crate::parser::statement::{FunParam, Statement};
use crate::parser::types::Type;

verus! {

/// The outcome of parsing: the value and the position after it, or an error.
pub enum Parsed<T> {
    Done(T, int),
    Failed(ParseError),
}

/// The position after `p`: the next one, or `p` itself at the last token.
pub open spec fn nx(ts: Seq<SpannedToken>, p: int) -> int {
    if p + 1 < ts.len() {
        p + 1
    } else {
        p
    }
}

/// `q` is a position after `p`, within the tokens.
pub open spec fn moved_on(ts: Seq<SpannedToken>, p: int, q: int) -> bool {
    p < q <= ts.len()
}

/// `q` is `p` or a position after it, within the tokens.
pub open spec fn not_back(ts: Seq<SpannedToken>, p: int, q: int) -> bool {
    p <= q <= ts.len()
}

/// The error for the token at `p`.
pub open spec fn unexpected_at(ts: Seq<SpannedToken>, p: int) -> ParseError {
    ParseError::UnexpectedToken { token: ts[p].token, span: ts[p].span }
}

/// The token at `p` is of the kind of `t`: the position after it; otherwise
/// the error for it.
pub open spec fn expect_at(ts: Seq<SpannedToken>, p: int, t: Token) -> Parsed<()> {
    if spec_kind(ts[p].token) == spec_kind(t) {
        Parsed::Done((), nx(ts, p))
    } else {
        Parsed::Failed(unexpected_at(ts, p))
    }
}

/// The first position from `p` on whose token is no line break or `;`.
pub open spec fn skip_terms(ts: Seq<SpannedToken>, p: int) -> int
    decreases ts.len() - p,
{
    if 0 <= p && p + 1 < ts.len() && (ts[p].token is Newline || ts[p].token is Semicolon) {
        skip_terms(ts, p + 1)
    } else {
        p
    }
}

/// The first position from `p` on whose token is no line break or `,`.
pub open spec fn skip_seps(ts: Seq<SpannedToken>, p: int) -> int
    decreases ts.len() - p,
{
    if 0 <= p && p + 1 < ts.len() && (ts[p].token is Newline || ts[p].token is Comma) {
        skip_seps(ts, p + 1)
    } else {
        p
    }
}

// ---------------------------------------------------------------------------
// Types

/// One alternative of a type: `Name(type)`, a primitive type, or a dotted name.
pub open spec fn p_single_type(ts: Seq<SpannedToken>, p: int) -> Parsed<TypeV>
    decreases ts.len() - p, 0nat,
{
    match ts[p].token {
        Token::Identifier(n) => {
            let q = nx(ts, p);
            if ts[q].token is LeftParen {
                let q1 = nx(ts, q);
                if !moved_on(ts, p, q1) {
                    Parsed::Failed(unexpected_at(ts, p))
                } else {
                    match p_type(ts, q1) {
                        Parsed::Done(param, q2) => match expect_at(ts, q2, Token::RightParen) {
                            Parsed::Done(_, q3) => Parsed::Done(
                                TypeV::Generic { name: n@, param: Box::new(param) },
                                q3,
                            ),
                            Parsed::Failed(e) => Parsed::Failed(e),
                        },
                        Parsed::Failed(e) => Parsed::Failed(e),
                    }
                }
            } else if !(ts[q].token is Dot) && spec_primitive_named(n@) is Some {
                Parsed::Done(TypeV::Primitive(spec_primitive_named(n@)->0), q)
            } else {
                p_segments(ts, q, seq![n@])
            }
        },
        _ => Parsed::Failed(unexpected_at(ts, p)),
    }
}

/// The rest of a dotted name, each `.` followed by a name.
pub open spec fn p_segments(ts: Seq<SpannedToken>, p: int, segs: Seq<Seq<char>>) -> Parsed<TypeV>
    decreases ts.len() - p,
{
    if ts[p].token is Dot {
        let q = nx(ts, p);
        match ts[q].token {
            Token::Identifier(n) => {
                let q2 = nx(ts, q);
                if !moved_on(ts, p, q2) {
                    Parsed::Failed(unexpected_at(ts, p))
                } else {
                    p_segments(ts, q2, segs.push(n@))
                }
            },
            _ => Parsed::Failed(unexpected_at(ts, q)),
        }
    } else {
        Parsed::Done(TypeV::Named(segs), p)
    }
}

/// A type: one alternative, or several separated by `|`.
pub open spec fn p_type(ts: Seq<SpannedToken>, p: int) -> Parsed<TypeV>
    decreases ts.len() - p, 1nat,
{
    match p_single_type(ts, p) {
        Parsed::Done(first, q) => if !(ts[q].token is Pipe) {
            Parsed::Done(first, q)
        } else if !moved_on(ts, p, q) {
            Parsed::Failed(unexpected_at(ts, p))
        } else {
            p_alts(ts, q, seq![first])
        },
        Parsed::Failed(e) => Parsed::Failed(e),
    }
}

/// The further alternatives of a union type, each after a `|`.
pub open spec fn p_alts(ts: Seq<SpannedToken>, p: int, alts: Seq<TypeV>) -> Parsed<TypeV>
    decreases ts.len() - p, 1nat,
{
    if ts[p].token is Pipe {
        match p_single_type(ts, nx(ts, p)) {
            Parsed::Done(t, q) => if !moved_on(ts, p, q) {
                Parsed::Failed(unexpected_at(ts, p))
            } else {
                p_alts(ts, q, alts.push(t))
            },
            Parsed::Failed(e) => Parsed::Failed(e),
        }
    } else {
        Parsed::Done(TypeV::Union(alts), p)
    }
}

/// `name: type` pairs separated by commas, up to `)`; each carries `span`.
pub open spec fn p_params(ts: Seq<SpannedToken>, p: int, span: Span, acc: Seq<ParamV>) -> Parsed<
    Seq<ParamV>,
>
    decreases ts.len() - p,
{
    if ts[p].token is RightParen {
        Parsed::Done(acc, p)
    } else {
        match ts[p].token {
            Token::Identifier(n) => match expect_at(ts, nx(ts, p), Token::Colon) {
                Parsed::Done(_, q) => match p_type(ts, q) {
                    Parsed::Done(t, q2) => {
                        let acc2 = acc.push(ParamV { name: n@, ty: t, span });
                        if ts[q2].token is Comma {
                            let q3 = nx(ts, q2);
                            if !moved_on(ts, p, q3) {
                                Parsed::Failed(unexpected_at(ts, p))
                            } else {
                                p_params(ts, q3, span, acc2)
                            }
                        } else if ts[q2].token is RightParen {
                            Parsed::Done(acc2, q2)
                        } else {
                            Parsed::Failed(unexpected_at(ts, q2))
                        }
                    },
                    Parsed::Failed(e) => Parsed::Failed(e),
                },
                Parsed::Failed(e) => Parsed::Failed(e),
            },
            _ => Parsed::Failed(unexpected_at(ts, p)),
        }
    }
}

/// The parameters of a function, each with the span of the token they start at.
pub open spec fn p_fun_params(ts: Seq<SpannedToken>, p: int) -> Parsed<Seq<ParamV>> {
    p_params(ts, p, ts[p].span, Seq::empty())
}

/// The fields of a struct declaration, separated by commas or line breaks, up
/// to `}`; each carries the span of its name.
pub open spec fn p_sfields(ts: Seq<SpannedToken>, p: int, acc: Seq<ParamV>) -> Parsed<Seq<ParamV>>
    decreases ts.len() - p,
{
    if ts[p].token is RightBrace {
        Parsed::Done(acc, p)
    } else {
        match ts[p].token {
            Token::Identifier(n) => match expect_at(ts, nx(ts, p), Token::Colon) {
                Parsed::Done(_, q) => match p_type(ts, q) {
                    Parsed::Done(t, q2) => {
                        let acc2 = acc.push(ParamV { name: n@, ty: t, span: ts[p].span });
                        if ts[q2].token is Comma {
                            let q3 = skip_terms(ts, nx(ts, q2));
                            if !moved_on(ts, p, q3) {
                                Parsed::Failed(unexpected_at(ts, p))
                            } else {
                                p_sfields(ts, q3, acc2)
                            }
                        } else if ts[q2].token is Newline || ts[q2].token is Semicolon {
                            let q3 = skip_terms(ts, q2);
                            if !moved_on(ts, p, q3) {
                                Parsed::Failed(unexpected_at(ts, p))
                            } else {
                                p_sfields(ts, q3, acc2)
                            }
                        } else if ts[q2].token is RightBrace {
                            Parsed::Done(acc2, q2)
                        } else {
                            Parsed::Failed(unexpected_at(ts, q2))
                        }
                    },
                    Parsed::Failed(e) => Parsed::Failed(e),
                },
                Parsed::Failed(e) => Parsed::Failed(e),
            },
            _ => Parsed::Failed(unexpected_at(ts, p)),
        }
    }
}

/// `struct Name { fields }`; the position after the `}`.
pub open spec fn p_struct(ts: Seq<SpannedToken>, p: int) -> Parsed<StmtV> {
    match expect_at(ts, p, Token::Struct) {
        Parsed::Done(_, q) => match ts[q].token {
            Token::Identifier(n) => match expect_at(ts, nx(ts, q), Token::LeftBrace) {
                Parsed::Done(_, q2) => match p_sfields(ts, skip_terms(ts, q2), Seq::empty()) {
                    Parsed::Done(fields, q3) => Parsed::Done(
                        StmtV::Struct { name: n@, fields, span: ts[p].span },
                        nx(ts, q3),
                    ),
                    Parsed::Failed(e) => Parsed::Failed(e),
                },
                Parsed::Failed(e) => Parsed::Failed(e),
            },
            _ => Parsed::Failed(unexpected_at(ts, q)),
        },
        Parsed::Failed(e) => Parsed::Failed(e),
    }
}

// ---------------------------------------------------------------------------
// Expressions and statements. `d` is the nesting depth and `a` whether a name
// followed by `{` starts a struct literal.

/// Whether an operator after an operand makes an infix expression.
pub open spec fn is_infix_operator(t: Token) -> bool {
    match t {
        Token::Add | Token::Subtract | Token::Multiply | Token::Divide | Token::Modulus
        | Token::Equals | Token::NotEquals | Token::Less | Token::Greater | Token::LessOrEquals
        | Token::GreaterOrEquals | Token::Assign | Token::Power | Token::AddAndAssign
        | Token::SubAndAssign | Token::MulAndAssign | Token::DivAndAssign | Token::ModAndAssign
        | Token::LogicAnd | Token::LogicOr | Token::BitAnd | Token::BitOr | Token::BitXOR
        | Token::LeftShift | Token::RightShift => true,
        _ => false,
    }
}

/// Whether the operator after an operand continues an expression parsed with
/// precedence `prec`: it binds more strongly, or as strongly and groups to
/// the right (`=` and `**`).
pub open spec fn continues(prec: Precedence, t: Token) -> bool {
    let pp = spec_token_precedence(t);
    spec_rank(prec) < spec_rank(pp) || (spec_rank(prec) == spec_rank(pp) && (t is Assign
        || t is Power))
}

/// An expression whose operators bind more strongly than `prec`; the cursor
/// ends on its last token. Nesting deeper than `MAX_DEPTH` fails.
pub open spec fn p_expr(ts: Seq<SpannedToken>, p: int, prec: Precedence, d: int, a: bool) -> Parsed<
    ExprV,
>
    decreases ts.len() - p, 16nat,
{
    if d + 1 > MAX_DEPTH {
        Parsed::Failed(ParseError::TooDeep { span: ts[p].span })
    } else {
        p_inner(ts, p, prec, d + 1, a)
    }
}

/// An expression: its first operand, then the operators that continue it.
pub open spec fn p_inner(ts: Seq<SpannedToken>, p: int, prec: Precedence, d: int, a: bool) -> Parsed<
    ExprV,
>
    decreases ts.len() - p, 15nat,
{
    let ss = ts[p].span;
    let first: Parsed<ExprV> = match ts[p].token {
        Token::Int(v) => Parsed::Done(ExprV::IntLiteral { val: v, span: ss }, p),
        Token::Float(v) => Parsed::Done(ExprV::FloatLiteral { val: v@, span: ss }, p),
        Token::Identifier(s) => if a && ts[nx(ts, p)].token is LeftBrace {
            match expect_at(ts, nx(ts, p), Token::LeftBrace) {
                Parsed::Done(_, q2) => {
                    let q3 = skip_terms(ts, q2);
                    if !moved_on(ts, p, q3) {
                        Parsed::Failed(unexpected_at(ts, p))
                    } else {
                        match p_fields(ts, q3, d, a, Seq::empty()) {
                            Parsed::Done(fields, q4) => Parsed::Done(
                                ExprV::StructLiteral { name: s@, fields, span: ss },
                                skip_terms(ts, q4),
                            ),
                            Parsed::Failed(e) => Parsed::Failed(e),
                        }
                    }
                },
                Parsed::Failed(e) => Parsed::Failed(e),
            }
        } else {
            Parsed::Done(ExprV::Identifier { name: s@, span: ss }, p)
        },
        Token::Bool(b) => Parsed::Done(ExprV::BoolLiteral { val: b, span: ss }, p),
        Token::String(s) => Parsed::Done(ExprV::StringLiteral { val: s@, span: ss }, p),
        Token::LeftParen => {
            let q = nx(ts, p);
            if !moved_on(ts, p, q) {
                Parsed::Failed(unexpected_at(ts, p))
            } else {
                match p_expr(ts, q, Precedence::Lowest, d, a) {
                    Parsed::Done(e, q2) => if ts[nx(ts, q2)].token is RightParen {
                        Parsed::Done(e, nx(ts, q2))
                    } else {
                        Parsed::Failed(unexpected_at(ts, q2))
                    },
                    Parsed::Failed(e) => Parsed::Failed(e),
                }
            }
        },
        Token::Subtract | Token::LogicNot | Token::BitNot | Token::Increment | Token::Decrement => {
            let q = nx(ts, p);
            if !moved_on(ts, p, q) {
                Parsed::Failed(unexpected_at(ts, p))
            } else {
                match p_expr(ts, q, Precedence::Prefix, d, a) {
                    Parsed::Done(r, q2) => Parsed::Done(
                        ExprV::Prefix { operator: ts[p].token, right: Box::new(r), span: ss },
                        q2,
                    ),
                    Parsed::Failed(e) => Parsed::Failed(e),
                }
            }
        },
        Token::Match => p_match(ts, p, d, a),
        Token::Fun => p_lambda(ts, p, d, a),
        _ => Parsed::Failed(unexpected_at(ts, p)),
    };
    match first {
        Parsed::Done(left, q) => if !not_back(ts, p, q) {
            Parsed::Failed(unexpected_at(ts, p))
        } else {
            p_loop(ts, q, prec, d, a, left, ss)
        },
        Parsed::Failed(e) => Parsed::Failed(e),
    }
}

/// The operators after an operand `left` ending at `p`, as long as they
/// continue an expression of precedence `prec`; every node built carries `ss`.
pub open spec fn p_loop(
    ts: Seq<SpannedToken>,
    p: int,
    prec: Precedence,
    d: int,
    a: bool,
    left: ExprV,
    ss: Span,
) -> Parsed<ExprV>
    decreases ts.len() - p, 14nat,
{
    let q1 = nx(ts, p);
    let pk = ts[q1].token;
    if !continues(prec, pk) {
        Parsed::Done(left, p)
    } else if is_infix_operator(pk) {
        let q2 = nx(ts, q1);
        if !moved_on(ts, p, q2) {
            Parsed::Failed(unexpected_at(ts, p))
        } else {
            match p_expr(ts, q2, spec_token_precedence(pk), d, a) {
                Parsed::Done(right, q3) => if !moved_on(ts, p, q3) {
                    Parsed::Failed(unexpected_at(ts, p))
                } else {
                    p_loop(
                        ts,
                        q3,
                        prec,
                        d,
                        a,
                        ExprV::Infix {
                            left: Box::new(left),
                            operator: ts[q1].token,
                            right: Box::new(right),
                            span: ss,
                        },
                        ss,
                    )
                },
                Parsed::Failed(e) => Parsed::Failed(e),
            }
        }
    } else if pk is Decrement || pk is Increment || pk is Pipe {
        if !moved_on(ts, p, q1) {
            Parsed::Failed(unexpected_at(ts, p))
        } else {
            p_loop(
                ts,
                q1,
                prec,
                d,
                a,
                ExprV::Postfix { left: Box::new(left), operator: ts[q1].token, span: ss },
                ss,
            )
        }
    } else if pk is Dot {
        match p_dot(ts, q1, d, a, left, ss) {
            Parsed::Done(e, q2) => if !moved_on(ts, p, q2) {
                Parsed::Failed(unexpected_at(ts, p))
            } else {
                p_loop(ts, q2, prec, d, a, e, ss)
            },
            Parsed::Failed(e) => Parsed::Failed(e),
        }
    } else if pk is LeftParen {
        match p_call_args(ts, q1, d, a) {
            Parsed::Done(args, q2) => if !moved_on(ts, p, q2) {
                Parsed::Failed(unexpected_at(ts, p))
            } else {
                p_loop(
                    ts,
                    q2,
                    prec,
                    d,
                    a,
                    ExprV::Call { function: Box::new(left), args, span: ss },
                    ss,
                )
            },
            Parsed::Failed(e) => Parsed::Failed(e),
        }
    } else if pk is LeftBracket {
        match p_index(ts, q1, d, a, left) {
            Parsed::Done(e, q2) => if !moved_on(ts, p, q2) {
                Parsed::Failed(unexpected_at(ts, p))
            } else {
                p_loop(ts, q2, prec, d, a, e, ss)
            },
            Parsed::Failed(e) => Parsed::Failed(e),
        }
    } else if pk is Sprout {
        let q2 = nx(ts, q1);
        if !moved_on(ts, p, q2) {
            Parsed::Failed(unexpected_at(ts, p))
        } else {
            match p_expr(ts, q2, Precedence::Sprout, d, a) {
                Parsed::Done(right, q3) => if !moved_on(ts, p, q3) {
                    Parsed::Failed(unexpected_at(ts, p))
                } else {
                    p_loop(
                        ts,
                        q3,
                        prec,
                        d,
                        a,
                        ExprV::Call { function: Box::new(right), args: seq![left], span: ss },
                        ss,
                    )
                },
                Parsed::Failed(e) => Parsed::Failed(e),
            }
        }
    } else if pk is Colon || pk is DoubleDot {
        match p_range(ts, q1, d, a, left) {
            Parsed::Done(e, q2) => if !moved_on(ts, p, q2) {
                Parsed::Failed(unexpected_at(ts, p))
            } else {
                p_loop(ts, q2, prec, d, a, e, ss)
            },
            Parsed::Failed(e) => Parsed::Failed(e),
        }
    } else {
        Parsed::Done(left, p)
    }
}

/// The fields of a struct literal, `name: value` separated by commas, up to `}`.
pub open spec fn p_fields(
    ts: Seq<SpannedToken>,
    p: int,
    d: int,
    a: bool,
    acc: Seq<(Seq<char>, ExprV)>,
) -> Parsed<Seq<(Seq<char>, ExprV)>>
    decreases ts.len() - p, 15nat,
{
    if ts[p].token is RightBrace {
        Parsed::Done(acc, p)
    } else {
        match ts[p].token {
            Token::Identifier(n) => match expect_at(ts, nx(ts, p), Token::Colon) {
                Parsed::Done(_, q) => if !moved_on(ts, p, q) {
                    Parsed::Failed(unexpected_at(ts, p))
                } else {
                    match p_expr(ts, q, Precedence::Lowest, d, a) {
                        Parsed::Done(v, q2) => {
                            let acc2 = acc.push((n@, v));
                            let q3 = skip_terms(ts, nx(ts, q2));
                            if ts[q3].token is Comma {
                                let q4 = skip_terms(ts, nx(ts, q3));
                                if !moved_on(ts, p, q4) {
                                    Parsed::Failed(unexpected_at(ts, p))
                                } else {
                                    p_fields(ts, q4, d, a, acc2)
                                }
                            } else if ts[q3].token is RightBrace {
                                Parsed::Done(acc2, q3)
                            } else {
                                Parsed::Failed(unexpected_at(ts, q3))
                            }
                        },
                        Parsed::Failed(e) => Parsed::Failed(e),
                    }
                },
                Parsed::Failed(e) => Parsed::Failed(e),
            },
            _ => Parsed::Failed(unexpected_at(ts, p)),
        }
    }
}

/// `.name` or `.name(args)` after `left`, the `.` at `p`.
pub open spec fn p_dot(ts: Seq<SpannedToken>, p: int, d: int, a: bool, left: ExprV, span: Span) -> Parsed<
    ExprV,
>
    decreases ts.len() - p, 10nat,
{
    match expect_at(ts, p, Token::Dot) {
        Parsed::Done(_, q) => match ts[q].token {
            Token::Identifier(name) => if ts[nx(ts, q)].token is LeftParen {
                if !moved_on(ts, p, nx(ts, q)) {
                    Parsed::Failed(unexpected_at(ts, p))
                } else {
                    match p_call_args(ts, nx(ts, q), d, a) {
                        Parsed::Done(args, q2) => Parsed::Done(
                            ExprV::MethodCall { object: Box::new(left), name: name@, args, span },
                            q2,
                        ),
                        Parsed::Failed(e) => Parsed::Failed(e),
                    }
                }
            } else {
                Parsed::Done(ExprV::Field { object: Box::new(left), name: name@, span }, q)
            },
            _ => Parsed::Failed(unexpected_at(ts, q)),
        },
        Parsed::Failed(e) => Parsed::Failed(e),
    }
}

/// The arguments after the `(` at `p`, up to the `)` the cursor ends on.
pub open spec fn p_call_args(ts: Seq<SpannedToken>, p: int, d: int, a: bool) -> Parsed<Seq<ExprV>>
    decreases ts.len() - p, 10nat,
{
    let q = nx(ts, p);
    if !moved_on(ts, p, q) {
        Parsed::Failed(unexpected_at(ts, p))
    } else {
        p_args(ts, q, d, a, Seq::empty())
    }
}

/// Arguments, each followed by an optional comma, up to `)`.
pub open spec fn p_args(ts: Seq<SpannedToken>, p: int, d: int, a: bool, acc: Seq<ExprV>) -> Parsed<
    Seq<ExprV>,
>
    decreases ts.len() - p, 17nat,
{
    if ts[p].token is RightParen {
        Parsed::Done(acc, p)
    } else {
        match p_expr(ts, p, Precedence::Lowest, d, a) {
            Parsed::Done(e, q) => {
                let q2 = nx(ts, q);
                let q3 = if ts[q2].token is Comma {
                    nx(ts, q2)
                } else {
                    q2
                };
                if !moved_on(ts, p, q3) {
                    Parsed::Failed(unexpected_at(ts, p))
                } else {
                    p_args(ts, q3, d, a, acc.push(e))
                }
            },
            Parsed::Failed(e) => Parsed::Failed(e),
        }
    }
}

/// `[index]` after `left`, the `[` at `p`; the node carries the span of `[`.
pub open spec fn p_index(ts: Seq<SpannedToken>, p: int, d: int, a: bool, left: ExprV) -> Parsed<
    ExprV,
>
    decreases ts.len() - p, 10nat,
{
    let q = nx(ts, p);
    if !moved_on(ts, p, q) {
        Parsed::Failed(unexpected_at(ts, p))
    } else {
        match p_expr(ts, q, Precedence::Lowest, d, a) {
            Parsed::Done(i, q2) => if ts[nx(ts, q2)].token is RightBracket {
                Parsed::Done(
                    ExprV::Index { left: Box::new(left), index: Box::new(i), span: ts[p].span },
                    nx(ts, q2),
                )
            } else {
                Parsed::Failed(unexpected_at(ts, nx(ts, q2)))
            },
            Parsed::Failed(e) => Parsed::Failed(e),
        }
    }
}

/// A range after its start `left`, the `:` (exclusive) or `..` (inclusive)
/// at `p`: the expression after the operator is its end.
pub open spec fn p_range(ts: Seq<SpannedToken>, p: int, d: int, a: bool, left: ExprV) -> Parsed<
    ExprV,
>
    decreases ts.len() - p, 10nat,
{
    let kind = if ts[p].token is Colon {
        RangeKind::Exclusive
    } else {
        RangeKind::Inclusive
    };
    let q = nx(ts, p);
    if !moved_on(ts, p, q) {
        Parsed::Failed(unexpected_at(ts, p))
    } else {
        match p_expr(ts, q, Precedence::Range, d, a) {
            Parsed::Done(e, q2) => Parsed::Done(
                ExprV::Range {
                    start: Some(Box::new(left)),
                    end: Some(Box::new(e)),
                    range_kind: kind,
                    span: ts[p].span,
                },
                q2,
            ),
            Parsed::Failed(e) => Parsed::Failed(e),
        }
    }
}

/// `match target { arms }`; the cursor ends on the `}` (or the end).
pub open spec fn p_match(ts: Seq<SpannedToken>, p: int, d: int, a: bool) -> Parsed<ExprV>
    decreases ts.len() - p, 14nat,
{
    match expect_at(ts, p, Token::Match) {
        Parsed::Done(_, q) => if !moved_on(ts, p, q) {
            Parsed::Failed(unexpected_at(ts, p))
        } else {
            match p_expr(ts, q, Precedence::Lowest, d, false) {
                Parsed::Done(target, q2) => match expect_at(ts, nx(ts, q2), Token::LeftBrace) {
                    Parsed::Done(_, q3) => {
                        let q4 = skip_seps(ts, q3);
                        if !moved_on(ts, p, q4) {
                            Parsed::Failed(unexpected_at(ts, p))
                        } else {
                            p_arms(ts, q4, d, a, ts[p].span, target, Seq::empty())
                        }
                    },
                    Parsed::Failed(e) => Parsed::Failed(e),
                },
                Parsed::Failed(e) => Parsed::Failed(e),
            }
        },
        Parsed::Failed(e) => Parsed::Failed(e),
    }
}

/// The arms of a `match`, `pattern => body`, separated by commas or line
/// breaks, up to `}` or the end.
pub open spec fn p_arms(
    ts: Seq<SpannedToken>,
    p: int,
    d: int,
    a: bool,
    ss: Span,
    target: ExprV,
    acc: Seq<ArmV>,
) -> Parsed<ExprV>
    decreases ts.len() - p, 17nat,
{
    if ts[p].token is RightBrace || ts[p].token is Eof {
        Parsed::Done(ExprV::Match { target: Box::new(target), arms: acc, span: ss }, p)
    } else {
        match p_expr(ts, p, Precedence::Lowest, d, a) {
            Parsed::Done(pat, q) => match expect_at(ts, nx(ts, q), Token::FatArrow) {
                Parsed::Done(_, q2) => {
                    let body: Parsed<ExprV> = if !moved_on(ts, p, q2) {
                        Parsed::Failed(unexpected_at(ts, p))
                    } else if ts[q2].token is LeftBrace {
                        if !moved_on(ts, p, nx(ts, q2)) {
                            Parsed::Failed(unexpected_at(ts, p))
                        } else {
                            match p_block(ts, nx(ts, q2), d, a) {
                                Parsed::Done(b, q3) => Parsed::Done(ExprV::Block { body: b, span: ss }, q3),
                                Parsed::Failed(e) => Parsed::Failed(e),
                            }
                        }
                    } else {
                        match p_expr(ts, q2, Precedence::Lowest, d, false) {
                            Parsed::Done(e, q3) => Parsed::Done(e, nx(ts, q3)),
                            Parsed::Failed(e) => Parsed::Failed(e),
                        }
                    };
                    match body {
                        Parsed::Done(b, q3) => {
                            let q4 = skip_seps(ts, q3);
                            if !moved_on(ts, p, q4) {
                                Parsed::Failed(unexpected_at(ts, p))
                            } else {
                                p_arms(
                                    ts,
                                    q4,
                                    d,
                                    a,
                                    ss,
                                    target,
                                    acc.push(ArmV { pattern: pat, body: b, span: ss }),
                                )
                            }
                        },
                        Parsed::Failed(e) => Parsed::Failed(e),
                    }
                },
                Parsed::Failed(e) => Parsed::Failed(e),
            },
            Parsed::Failed(e) => Parsed::Failed(e),
        }
    }
}

/// The parameters, the optional `[return type]` and the `{` of a function
/// after its name: the parameters, the return type and the position after `{`.
pub open spec fn p_signature(ts: Seq<SpannedToken>, p: int) -> Parsed<
    (Seq<ParamV>, Option<crate::parser::tree::TypeV>),
> {
    match expect_at(ts, p, Token::LeftParen) {
        Parsed::Done(_, q) => match p_fun_params(ts, q) {
            Parsed::Done(params, q2) => match expect_at(ts, q2, Token::RightParen) {
                Parsed::Done(_, q3) => {
                    let rt: Parsed<Option<TypeV>> = if ts[q3].token is LeftBracket {
                        match p_type(ts, nx(ts, q3)) {
                            Parsed::Done(t, q4) => match expect_at(ts, q4, Token::RightBracket) {
                                Parsed::Done(_, q5) => Parsed::Done(Some(t), q5),
                                Parsed::Failed(e) => Parsed::Failed(e),
                            },
                            Parsed::Failed(e) => Parsed::Failed(e),
                        }
                    } else {
                        Parsed::Done(None, q3)
                    };
                    match rt {
                        Parsed::Done(r, q5) => match expect_at(ts, q5, Token::LeftBrace) {
                            Parsed::Done(_, q6) => Parsed::Done((params, r), q6),
                            Parsed::Failed(e) => Parsed::Failed(e),
                        },
                        Parsed::Failed(e) => Parsed::Failed(e),
                    }
                },
                Parsed::Failed(e) => Parsed::Failed(e),
            },
            Parsed::Failed(e) => Parsed::Failed(e),
        },
        Parsed::Failed(e) => Parsed::Failed(e),
    }
}

/// `fun(params) [return type] { body }` as a value.
pub open spec fn p_lambda(ts: Seq<SpannedToken>, p: int, d: int, a: bool) -> Parsed<ExprV>
    decreases ts.len() - p, 14nat,
{
    match expect_at(ts, p, Token::Fun) {
        Parsed::Done(_, q) => match p_signature(ts, q) {
            Parsed::Done((params, rt), q2) => if !moved_on(ts, p, q2) {
                Parsed::Failed(unexpected_at(ts, p))
            } else {
                match p_block(ts, q2, d, a) {
                    Parsed::Done(body, q3) => Parsed::Done(
                        ExprV::Lambda { params, return_type: rt, body, span: ts[p].span },
                        q3,
                    ),
                    Parsed::Failed(e) => Parsed::Failed(e),
                }
            },
            Parsed::Failed(e) => Parsed::Failed(e),
        },
        Parsed::Failed(e) => Parsed::Failed(e),
    }
}

/// The statements of a block whose `{` has been read, up to and past its `}`.
pub open spec fn p_block(ts: Seq<SpannedToken>, p: int, d: int, a: bool) -> Parsed<Seq<StmtV>>
    decreases ts.len() - p, 23nat,
{
    let q = skip_terms(ts, p);
    if !not_back(ts, p, q) {
        Parsed::Failed(unexpected_at(ts, p))
    } else {
        p_stmts(ts, q, d, a, Seq::empty())
    }
}

/// Statements, each followed by line breaks or `;`, up to and past `}`.
pub open spec fn p_stmts(ts: Seq<SpannedToken>, p: int, d: int, a: bool, acc: Seq<StmtV>) -> Parsed<
    Seq<StmtV>,
>
    decreases ts.len() - p, 22nat,
{
    if ts[p].token is RightBrace {
        Parsed::Done(acc, nx(ts, p))
    } else {
        match p_stmt(ts, p, d, a) {
            Parsed::Done(s, q) => {
                let q2 = skip_terms(ts, q);
                if !moved_on(ts, p, q2) {
                    Parsed::Failed(unexpected_at(ts, p))
                } else {
                    p_stmts(ts, q2, d, a, acc.push(s))
                }
            },
            Parsed::Failed(e) => Parsed::Failed(e),
        }
    }
}

/// One statement; the cursor ends on the first token after it.
pub open spec fn p_stmt(ts: Seq<SpannedToken>, p: int, d: int, a: bool) -> Parsed<StmtV>
    decreases ts.len() - p, 21nat,
{
    let t = ts[p].token;
    if t is Let || t is Var || t is Const {
        p_binding(ts, p, d, a)
    } else if t is Return {
        p_return(ts, p, d, a)
    } else if t is If {
        p_if(ts, p, d, a)
    } else if t is For {
        p_for(ts, p, d, a)
    } else if t is Struct {
        p_struct(ts, p)
    } else if t is Fun && ts[nx(ts, p)].token is Identifier {
        p_fun(ts, p, d, a)
    } else {
        match p_expr(ts, p, Precedence::Lowest, d, a) {
            Parsed::Done(e, q) => Parsed::Done(
                StmtV::Expression { expression: e, span: ts[p].span },
                nx(ts, q),
            ),
            Parsed::Failed(e) => Parsed::Failed(e),
        }
    }
}

/// `let`, `var` or `const`, a name, `=` and a value.
pub open spec fn p_binding(ts: Seq<SpannedToken>, p: int, d: int, a: bool) -> Parsed<StmtV>
    decreases ts.len() - p, 18nat,
{
    let span = ts[p].span;
    let q = nx(ts, p);
    match ts[q].token {
        Token::Identifier(n) => match expect_at(ts, nx(ts, q), Token::Assign) {
            Parsed::Done(_, q2) => match p_expr(ts, q2, Precedence::Lowest, d, a) {
                Parsed::Done(v, q3) => Parsed::Done(
                    if ts[p].token is Let {
                        StmtV::Let { name: n@, value: v, span }
                    } else if ts[p].token is Var {
                        StmtV::Var { name: n@, value: v, span }
                    } else {
                        StmtV::Const { name: n@, value: v, span }
                    },
                    nx(ts, q3),
                ),
                Parsed::Failed(e) => Parsed::Failed(e),
            },
            Parsed::Failed(e) => Parsed::Failed(e),
        },
        _ => Parsed::Failed(unexpected_at(ts, q)),
    }
}

/// `return` with an optional value.
pub open spec fn p_return(ts: Seq<SpannedToken>, p: int, d: int, a: bool) -> Parsed<StmtV>
    decreases ts.len() - p, 18nat,
{
    let span = ts[p].span;
    let q = nx(ts, p);
    let t = ts[q].token;
    if t is Newline || t is Semicolon || t is RightBrace || t is Eof {
        Parsed::Done(StmtV::Return { value: None, span }, q)
    } else {
        match p_expr(ts, q, Precedence::Lowest, d, a) {
            Parsed::Done(v, q2) => Parsed::Done(StmtV::Return { value: Some(v), span }, nx(ts, q2)),
            Parsed::Failed(e) => Parsed::Failed(e),
        }
    }
}

/// A condition followed by a block: the condition (where `{` does not start
/// a struct literal), the block, and the position after the block.
pub open spec fn p_cond_block(ts: Seq<SpannedToken>, p: int, start: int, d: int, a: bool) -> Parsed<
    (ExprV, Seq<StmtV>),
>
    decreases ts.len() - start, 17nat,
{
    if !not_back(ts, start, p) {
        Parsed::Failed(unexpected_at(ts, start))
    } else {
        match p_expr(ts, p, Precedence::Lowest, d, false) {
            Parsed::Done(c, q) => match expect_at(ts, nx(ts, q), Token::LeftBrace) {
                Parsed::Done(_, q2) => if !moved_on(ts, start, q2) {
                    Parsed::Failed(unexpected_at(ts, start))
                } else {
                    match p_block(ts, q2, d, a) {
                        Parsed::Done(b, q3) => Parsed::Done((c, b), q3),
                        Parsed::Failed(e) => Parsed::Failed(e),
                    }
                },
                Parsed::Failed(e) => Parsed::Failed(e),
            },
            Parsed::Failed(e) => Parsed::Failed(e),
        }
    }
}

/// `if`, its `else if` branches and its `else` block.
pub open spec fn p_if(ts: Seq<SpannedToken>, p: int, d: int, a: bool) -> Parsed<StmtV>
    decreases ts.len() - p, 18nat,
{
    match expect_at(ts, p, Token::If) {
        Parsed::Done(_, q) => match p_cond_block(ts, q, p, d, a) {
            Parsed::Done((c, then_block), q2) => if !moved_on(ts, p, q2) {
                Parsed::Failed(unexpected_at(ts, p))
            } else {
                match p_else(ts, q2, d, a, Seq::empty()) {
                    Parsed::Done((else_if, else_block), q3) => Parsed::Done(
                        StmtV::If { condition: c, then_block, else_if, else_block, span: ts[p].span },
                        q3,
                    ),
                    Parsed::Failed(e) => Parsed::Failed(e),
                }
            },
            Parsed::Failed(e) => Parsed::Failed(e),
        },
        Parsed::Failed(e) => Parsed::Failed(e),
    }
}

/// `else if` branches, then an optional `else` block.
pub open spec fn p_else(ts: Seq<SpannedToken>, p: int, d: int, a: bool, acc: Seq<ElseIfV>) -> Parsed<
    (Seq<ElseIfV>, Seq<StmtV>),
>
    decreases ts.len() - p, 18nat,
{
    if ts[p].token is Else {
        let q = nx(ts, p);
        if ts[q].token is If {
            if !moved_on(ts, p, nx(ts, q)) {
                Parsed::Failed(unexpected_at(ts, p))
            } else {
                match p_cond_block(ts, nx(ts, q), nx(ts, q), d, a) {
                    Parsed::Done((c, b), q2) => if !moved_on(ts, p, q2) {
                        Parsed::Failed(unexpected_at(ts, p))
                    } else {
                        p_else(ts, q2, d, a, acc.push(ElseIfV { condition: c, block: b, span: ts[p].span }))
                    },
                    Parsed::Failed(e) => Parsed::Failed(e),
                }
            }
        } else {
            match expect_at(ts, q, Token::LeftBrace) {
                Parsed::Done(_, q2) => if !moved_on(ts, p, q2) {
                    Parsed::Failed(unexpected_at(ts, p))
                } else {
                    match p_block(ts, q2, d, a) {
                        Parsed::Done(b, q3) => Parsed::Done((acc, b), q3),
                        Parsed::Failed(e) => Parsed::Failed(e),
                    }
                },
                Parsed::Failed(e) => Parsed::Failed(e),
            }
        }
    } else {
        Parsed::Done((acc, Seq::empty()), p)
    }
}

/// The three forms of `for`: `for name = init; condition; post {..}`,
/// `for name in iterable {..}` and `for condition {..}`.
pub open spec fn p_for(ts: Seq<SpannedToken>, p: int, d: int, a: bool) -> Parsed<StmtV>
    decreases ts.len() - p, 20nat,
{
    match expect_at(ts, p, Token::For) {
        Parsed::Done(_, q) => if ts[q].token is Identifier && ts[nx(ts, q)].token is Assign {
            p_for_counter(ts, q, p, d, a)
        } else if ts[q].token is Identifier && ts[nx(ts, q)].token is In {
            p_for_range(ts, q, p, d, a)
        } else {
            match p_cond_block(ts, q, p, d, a) {
                Parsed::Done((c, body), q2) => Parsed::Done(
                    StmtV::ForCondition { condition: c, body, span: ts[p].span },
                    q2,
                ),
                Parsed::Failed(e) => Parsed::Failed(e),
            }
        },
        Parsed::Failed(e) => Parsed::Failed(e),
    }
}

/// `for name = init; condition; post {..}` from the name at `q`, the `for` at `p`.
pub open spec fn p_for_counter(ts: Seq<SpannedToken>, q: int, p: int, d: int, a: bool) -> Parsed<StmtV>
    decreases ts.len() - p, 19nat,
{
    if !not_back(ts, p, q) {
        Parsed::Failed(unexpected_at(ts, p))
    } else {
        match expect_at(ts, nx(ts, q), Token::Assign) {
            Parsed::Done(_, q2) => match p_expr(ts, q2, Precedence::Lowest, d, false) {
                Parsed::Done(value, q3) => match expect_at(ts, nx(ts, q3), Token::Semicolon) {
                    Parsed::Done(_, q4) => p_for_tail(
                        ts,
                        q4,
                        p,
                        d,
                        a,
                        StmtV::Let { name: ts[q].token->Identifier_0@, value, span: ts[q].span },
                    ),
                    Parsed::Failed(e) => Parsed::Failed(e),
                },
                Parsed::Failed(e) => Parsed::Failed(e),
            },
            Parsed::Failed(e) => Parsed::Failed(e),
        }
    }
}

/// The condition, `;`, post statement and block of a counting `for` whose
/// `init` has been read; the condition at `q`, the `for` at `p`.
pub open spec fn p_for_tail(ts: Seq<SpannedToken>, q: int, p: int, d: int, a: bool, init: StmtV) -> Parsed<
    StmtV,
>
    decreases ts.len() - p, 18nat,
{
    if !not_back(ts, p, q) {
        Parsed::Failed(unexpected_at(ts, p))
    } else {
        match p_expr(ts, q, Precedence::Lowest, d, false) {
            Parsed::Done(c, q2) => match expect_at(ts, nx(ts, q2), Token::Semicolon) {
                Parsed::Done(_, q3) => match p_cond_block(ts, q3, p, d, a) {
                    Parsed::Done((post, body), q4) => Parsed::Done(
                        StmtV::ForCounter {
                            init: Box::new(init),
                            condition: c,
                            post,
                            body,
                            span: ts[p].span,
                        },
                        q4,
                    ),
                    Parsed::Failed(e) => Parsed::Failed(e),
                },
                Parsed::Failed(e) => Parsed::Failed(e),
            },
            Parsed::Failed(e) => Parsed::Failed(e),
        }
    }
}

/// `for name in iterable {..}` from the name at `q`, the `for` at `p`.
pub open spec fn p_for_range(ts: Seq<SpannedToken>, q: int, p: int, d: int, a: bool) -> Parsed<StmtV>
    decreases ts.len() - p, 18nat,
{
    match expect_at(ts, nx(ts, q), Token::In) {
        Parsed::Done(_, q2) => match p_cond_block(ts, q2, p, d, a) {
            Parsed::Done((iterable, body), q3) => Parsed::Done(
                StmtV::ForRange {
                    variable: ts[q].token->Identifier_0@,
                    iterable,
                    body,
                    span: ts[p].span,
                },
                q3,
            ),
            Parsed::Failed(e) => Parsed::Failed(e),
        },
        Parsed::Failed(e) => Parsed::Failed(e),
    }
}

/// `fun name(params) [return type] { body }`.
pub open spec fn p_fun(ts: Seq<SpannedToken>, p: int, d: int, a: bool) -> Parsed<StmtV>
    decreases ts.len() - p, 18nat,
{
    match expect_at(ts, p, Token::Fun) {
        Parsed::Done(_, q) => match ts[q].token {
            Token::Identifier(n) => match p_signature(ts, nx(ts, q)) {
                Parsed::Done((params, rt), q2) => if !moved_on(ts, p, q2) {
                    Parsed::Failed(unexpected_at(ts, p))
                } else {
                    match p_block(ts, q2, d, a) {
                        Parsed::Done(body, q3) => Parsed::Done(
                            StmtV::Fun { name: n@, params, return_type: rt, body, span: ts[p].span },
                            q3,
                        ),
                        Parsed::Failed(e) => Parsed::Failed(e),
                    }
                },
                Parsed::Failed(e) => Parsed::Failed(e),
            },
            _ => Parsed::Failed(unexpected_at(ts, q)),
        },
        Parsed::Failed(e) => Parsed::Failed(e),
    }
}

/// Whether a top-level statement is a declaration: a function, a struct or a
/// constant.
pub open spec fn is_declaration(s: StmtV) -> bool {
    s is Fun || s is Struct || s is Const
}

/// The statements of a whole source text from `p` on, declarations and the
/// rest apart, up to the end.
pub open spec fn p_prog(
    ts: Seq<SpannedToken>,
    p: int,
    d: int,
    a: bool,
    decls: Seq<StmtV>,
    main: Seq<StmtV>,
) -> Parsed<ProgramV>
    decreases ts.len() - p,
{
    if ts[p].token is Eof {
        Parsed::Done(ProgramV { declarations: decls, main }, p)
    } else {
        match p_stmt(ts, p, d, a) {
            Parsed::Done(s, q) => {
                let q2 = skip_terms(ts, q);
                if !moved_on(ts, p, q2) {
                    Parsed::Failed(unexpected_at(ts, p))
                } else if is_declaration(s) {
                    p_prog(ts, q2, d, a, decls.push(s), main)
                } else {
                    p_prog(ts, q2, d, a, decls, main.push(s))
                }
            },
            Parsed::Failed(e) => Parsed::Failed(e),
        }
    }
}

/// A whole source text.
pub open spec fn p_program(ts: Seq<SpannedToken>, p: int, d: int, a: bool) -> Parsed<ProgramV> {
    p_prog(ts, skip_terms(ts, p), d, a, Seq::empty(), Seq::empty())
}

proof fn lemma_prog_apart(
    ts: Seq<SpannedToken>,
    p: int,
    d: int,
    a: bool,
    decls: Seq<StmtV>,
    main: Seq<StmtV>,
)
    requires
        forall|i: int| 0 <= i < decls.len() ==> is_declaration(#[trigger] decls[i]),
        forall|j: int| 0 <= j < main.len() ==> !is_declaration(#[trigger] main[j]),
    ensures
        p_prog(ts, p, d, a, decls, main) matches Parsed::Done(prog, _) ==> {
            &&& forall|i: int| 0 <= i < prog.declarations.len() ==> is_declaration(#[trigger] prog.declarations[i])
            &&& forall|j: int| 0 <= j < prog.main.len() ==> !is_declaration(#[trigger] prog.main[j])
        },
    decreases ts.len() - p,
{
    if !(ts[p].token is Eof) {
        match p_stmt(ts, p, d, a) {
            Parsed::Done(s, q) => {
                let q2 = skip_terms(ts, q);
                if moved_on(ts, p, q2) {
                    if is_declaration(s) {
                        assert forall|i: int| 0 <= i < decls.push(s).len() implies is_declaration(
                            #[trigger] decls.push(s)[i],
                        ) by {
                            if i < decls.len() {
                                assert(decls.push(s)[i] == decls[i]);
                            }
                        }
                        lemma_prog_apart(ts, q2, d, a, decls.push(s), main);
                    } else {
                        assert forall|j: int| 0 <= j < main.push(s).len() implies !is_declaration(
                            #[trigger] main.push(s)[j],
                        ) by {
                            if j < main.len() {
                                assert(main.push(s)[j] == main[j]);
                            }
                        }
                        lemma_prog_apart(ts, q2, d, a, decls, main.push(s));
                    }
                }
            },
            Parsed::Failed(_) => {},
        }
    }
}

/// A parsed program keeps its declarations apart: each declaration is a
/// function, a struct or a constant, and no top-level statement is.
pub proof fn law_declarations_apart(ts: Seq<SpannedToken>, p: int, d: int, a: bool)
    ensures
        p_program(ts, p, d, a) matches Parsed::Done(prog, _) ==> {
            &&& forall|i: int| 0 <= i < prog.declarations.len() ==> is_declaration(#[trigger] prog.declarations[i])
            &&& forall|j: int| 0 <= j < prog.main.len() ==> !is_declaration(#[trigger] prog.main[j])
        },
{
    lemma_prog_apart(ts, skip_terms(ts, p), d, a, Seq::empty(), Seq::empty());
}

/// A parse returned what the outcome gives, ending at `pos`, or failed with
/// its error.
pub open spec fn gives_expr(r: Result<Expression, ParseError>, pos: int, out: Parsed<ExprV>) -> bool {
    match out {
        Parsed::Done(v, q) => r is Ok && expr_v(r->Ok_0) == v && pos == q,
        Parsed::Failed(e) => r == Err::<Expression, ParseError>(e),
    }
}

pub open spec fn gives_exprs(r: Result<Vec<Expression>, ParseError>, pos: int, out: Parsed<Seq<ExprV>>) -> bool {
    match out {
        Parsed::Done(v, q) => r is Ok && exprs_v(r->Ok_0@) == v && pos == q,
        Parsed::Failed(e) => r is Err && r->Err_0 == e,
    }
}

pub open spec fn gives_stmt(r: Result<Statement, ParseError>, pos: int, out: Parsed<StmtV>) -> bool {
    match out {
        Parsed::Done(v, q) => r is Ok && stmt_v(r->Ok_0) == v && pos == q,
        Parsed::Failed(e) => r == Err::<Statement, ParseError>(e),
    }
}

pub open spec fn gives_stmts(r: Result<Vec<Statement>, ParseError>, pos: int, out: Parsed<Seq<StmtV>>) -> bool {
    match out {
        Parsed::Done(v, q) => r is Ok && stmts_v(r->Ok_0@) == v && pos == q,
        Parsed::Failed(e) => r is Err && r->Err_0 == e,
    }
}

pub open spec fn gives_type(r: Result<Type, ParseError>, pos: int, out: Parsed<TypeV>) -> bool {
    match out {
        Parsed::Done(v, q) => r is Ok && type_v(r->Ok_0) == v && pos == q,
        Parsed::Failed(e) => r == Err::<Type, ParseError>(e),
    }
}

pub open spec fn gives_params(r: Result<Vec<FunParam>, ParseError>, pos: int, out: Parsed<Seq<ParamV>>) -> bool {
    match out {
        Parsed::Done(v, q) => r is Ok && params_v(r->Ok_0@) == v && pos == q,
        Parsed::Failed(e) => r is Err && r->Err_0 == e,
    }
}

pub open spec fn gives_program(r: Result<Program, ParseError>, pos: int, out: Parsed<ProgramV>) -> bool {
    match out {
        Parsed::Done(v, q) => r is Ok && program_v(r->Ok_0) == v && pos == q,
        Parsed::Failed(e) => r is Err && r->Err_0 == e,
    }
}

pub open spec fn gives_unit(r: Result<(), ParseError>, pos: int, out: Parsed<()>) -> bool {
    match out {
        Parsed::Done(_, q) => r is Ok && pos == q,
        Parsed::Failed(e) => r == Err::<(), ParseError>(e),
    }
}

} // verus!
