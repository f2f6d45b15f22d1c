use vstd::prelude::*;
use crate::lexer::span::Span;
use vstd::string::StringExecFns;
use crate::lexer::token::{Token, token_text};
use crate::text::{nat_text, push_nat, push_str};

verus! {

/// Why a piece of source text could not be parsed.
#[derive(Debug, PartialEq)]
pub enum ParseError {
    /// A token stands where the grammar does not allow it.
    UnexpectedToken { token: Token, span: Span },
    /// Expressions are nested more deeply than the parser allows.
    TooDeep { span: Span },
}

/// Where a span starts, as `line:column`.
pub open spec fn place_text(span: Span) -> Seq<char> {
    nat_text(span.start.line as nat) + ":"@ + nat_text(span.start.col as nat)
}

/// The text that reports a parse error.
pub open spec fn error_text(e: ParseError) -> Seq<char> {
    match e {
        ParseError::UnexpectedToken { token, span } => "unexpected "@ + token_text(token) + " at "@
            + place_text(span),
        ParseError::TooDeep { span } => "expression nested too deeply at "@ + place_text(span),
    }
}

fn push_place(out: &mut String, span: Span)
    ensures
        final(out)@ == old(out)@ + place_text(span),
{
    push_nat(out, span.start.line as u128);
    push_str(out, ":");
    push_nat(out, span.start.col as u128);
}

impl ParseError {
    /// The text that reports the error: what was found and where.
    pub fn message(&self) -> (r: String)
        ensures
            r@ == error_text(*self),
    {
        match self {
            ParseError::UnexpectedToken { token, span } => {
                let mut r = String::from_str("unexpected ");
                let t = token.text();
                push_str(&mut r, t.as_str());
                push_str(&mut r, " at ");
                push_place(&mut r, *span);
                r
            },
            ParseError::TooDeep { span } => {
                let mut r = String::from_str("expression nested too deeply at ");
                push_place(&mut r, *span);
                r
            },
        }
    }
}

} // verus!
