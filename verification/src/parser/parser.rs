//! The parser's state, its token cursor, and the parsing of statements, blocks
//! and types.
use vstd::prelude::*;
use vstd::string::StringExecFns;
use crate::lexer::lexer::Lexer;
use crate::lexer::scan::{lex_all, tok_v};
use crate::lexer::span::{Span, SpannedToken};
use crate::lexer::token::{PrimitiveType, Token, spec_kind};
use crate::parser::error::ParseError;
use crate::parser::expression::{Expression, RangeKind, StructLiteralField, token_precedence, spec_token_precedence};
use crate::parser::precedence::Precedence;
use crate::parser::program::Program;
use crate::parser::statement::{ElseIf, FunParam, IfStatement, MatchArm, Statement};
use crate::parser::types::{Type, TypePath};
use crate::parser::grammar::{
    Parsed, expect_at, gives_expr, gives_exprs, gives_params, gives_program, gives_stmt, gives_stmts,
    gives_type, gives_unit, nx, p_alts, p_args, p_arms, p_block, p_call_args,
    p_cond_block, p_dot, p_else, p_expr, p_fields, p_for, p_fun, p_fun_params, p_if, p_index,
    p_inner, p_lambda, p_loop, p_match, p_params, p_prog, p_program, p_range, p_return,
    p_segments, p_sfields, p_signature, p_single_type, p_stmt, p_stmts, p_struct, p_type,
    p_binding, skip_seps, skip_terms, };
use crate::parser::tree::{
    ExprV, StmtV, TypeV, expr_v, exprs_v, fields_v, param_v, params_v, stmt_v, stmts_v,
    type_v, types_v,
};

verus! {

/// How deeply expressions may nest before parsing gives up.
pub const MAX_DEPTH: usize = 256;

/// A recursive-descent parser over the tokens of one source text.
///
/// `current_token` is the token being looked at and `peek_token` the one after
/// it; at the end of the input both are `Eof`.
pub struct Parser {
    tokens: Vec<SpannedToken>,
    pos: usize,
    current_token: SpannedToken,
    peek_token: SpannedToken,
    depth: usize,
    allowed_struct_literal: bool,
}

impl Parser {
    /// The tokens being parsed; the last one, and only it, is `Eof`.
    pub closed spec fn tokens(self) -> Seq<SpannedToken> {
        self.tokens@
    }

    /// The index of the current token.
    pub closed spec fn position(self) -> int {
        self.pos as int
    }

    /// The current token.
    pub closed spec fn current(self) -> SpannedToken {
        self.current_token
    }

    /// The token after the current one (`Eof` at the end).
    pub closed spec fn peek(self) -> SpannedToken {
        self.peek_token
    }

    /// How deeply the expression being parsed is nested.
    pub closed spec fn nesting(self) -> int {
        self.depth as int
    }

    /// Whether a name followed by `{` starts a struct literal here.
    pub closed spec fn struct_literals_allowed(self) -> bool {
        self.allowed_struct_literal
    }

    /// How many tokens, the current one included, are left.
    pub closed spec fn remaining(self) -> int {
        self.tokens@.len() - self.pos
    }

    /// The current token is the final `Eof`.
    pub closed spec fn at_end(self) -> bool {
        self.current_token.token is Eof
    }

    pub closed spec fn wf(self) -> bool {
        &&& self.tokens@.len() >= 1
        &&& self.tokens@.last().token is Eof
        &&& forall|i: int| 0 <= i < self.tokens@.len() - 1 ==> !((#[trigger] self.tokens@[i]).token is Eof)
        &&& self.pos < self.tokens@.len()
        &&& self.current_token == self.tokens@[self.pos as int]
        &&& self.peek_token == self.tokens@[if self.pos + 1 < self.tokens@.len() {
            self.pos + 1
        } else {
            self.pos as int
        }]
        &&& self.depth <= MAX_DEPTH
    }

    /// `self` is what `before` becomes by reading on: same tokens, same nesting,
    /// the cursor no further back.
    pub closed spec fn reads_on_from(self, before: Parser) -> bool {
        &&& self.wf()
        &&& self.tokens@ == before.tokens@
        &&& self.pos >= before.pos
        &&& self.depth == before.depth
    }

    /// The cursor has moved past `before`'s position, or stands on a token that
    /// is not the end: one more step is then sure to move past it.
    pub closed spec fn moved_past(self, before: Parser) -> bool {
        self.pos > before.pos || !self.at_end()
    }

    /// What a well-formed parser is: its tokens end with the one `Eof`, the
    /// current token is the one at its position and the peeked token the one
    /// after it (or `Eof` again at the end), and nesting is within `MAX_DEPTH`.
    pub proof fn lemma_wf(self)
        ensures
            self.wf() <==> {
                &&& self.tokens().len() >= 1
                &&& self.tokens().last().token is Eof
                &&& forall|i: int|
                    0 <= i < self.tokens().len() - 1 ==> !((#[trigger] self.tokens()[i]).token is Eof)
                &&& 0 <= self.position() < self.tokens().len()
                &&& self.current() == self.tokens()[self.position()]
                &&& self.peek() == self.tokens()[if self.position() + 1 < self.tokens().len() {
                    self.position() + 1
                } else {
                    self.position()
                }]
                &&& 0 <= self.nesting() <= MAX_DEPTH
            },
    {
    }

    /// What reading on means: a well-formed parser over the same tokens at the
    /// same nesting, its cursor no further back.
    pub proof fn lemma_reads_on_from(self, before: Parser)
        ensures
            self.reads_on_from(before) <==> {
                &&& self.wf()
                &&& self.tokens() == before.tokens()
                &&& self.position() >= before.position()
                &&& self.nesting() == before.nesting()
            },
    {
    }

    /// What moving past means: the cursor is further on, or it stands on a
    /// token other than the final `Eof`.
    pub proof fn lemma_moved_past(self, before: Parser)
        ensures
            self.moved_past(before) <==> (self.position() > before.position() || !self.at_end()),
            self.at_end() <==> self.current().token is Eof,
            self.remaining() == self.tokens().len() - self.position(),
    {
    }

    /// A parser over every token of the lexer's remaining input.
    pub fn new(lexer: Lexer) -> (p: Parser)
        requires
            lexer.wf(),
        ensures
            p.wf(),
            p.position() == 0,
            p.nesting() == 0,
            p.struct_literals_allowed(),
            Seq::new(p.tokens().len(), |i: int| (tok_v(p.tokens()[i].token), p.tokens()[i].span))
                == lex_all(lexer.input(), lexer.cursor()),
    {
        let mut lexer = lexer;
        let tokens = lexer.tokenize();
        let current_token = tokens[0].clone();
        let peek_token = if 1 < tokens.len() {
            tokens[1].clone()
        } else {
            tokens[0].clone()
        };
        Parser { tokens, pos: 0, current_token, peek_token, depth: 0, allowed_struct_literal: true }
    }

    /// Moves to the next token; at the end it stays on `Eof`.
    pub fn next_token(&mut self)
        requires
            old(self).wf(),
        ensures
            final(self).wf(),
            final(self).tokens() == old(self).tokens(),
            final(self).nesting() == old(self).nesting(),
            final(self).struct_literals_allowed() == old(self).struct_literals_allowed(),
            final(self).position() == (if old(self).position() + 1 < old(self).tokens().len() {
                old(self).position() + 1
            } else {
                old(self).position() as int
            }),
            !old(self).at_end() ==> final(self).position() == old(self).position() + 1,
    {
        let n = self.tokens.len();
        if self.pos < n - 1 {
            self.pos = self.pos + 1;
            self.current_token = self.tokens[self.pos].clone();
            self.peek_token = if self.pos < n - 1 {
                self.tokens[self.pos + 1].clone()
            } else {
                self.tokens[self.pos].clone()
            };
        }
    }

    /// How strongly the token after the current one binds as an operator.
    pub fn peek_precedence(&self) -> (p: Precedence)
        ensures
            p == spec_token_precedence(self.peek().token),
    {
        token_precedence(&self.peek_token.token)
    }

    /// The error for a token that stands where the grammar does not allow it.
    pub fn unexpected(&self, t: &SpannedToken) -> (e: ParseError)
        ensures
            e == (ParseError::UnexpectedToken { token: t.token, span: t.span }),
    {
        ParseError::UnexpectedToken { token: t.token.clone(), span: t.span }
    }

    /// Moves past the current token when it is of the kind of `t`; fails on it
    /// otherwise.
    pub fn expect(&mut self, t: Token) -> (r: Result<(), ParseError>)
        requires
            old(self).wf(),
        ensures
            final(self).wf(),
            final(self).tokens() == old(self).tokens(),
            final(self).nesting() == old(self).nesting(),
            final(self).struct_literals_allowed() == old(self).struct_literals_allowed(),
            spec_kind(old(self).current().token) == spec_kind(t) ==> {
                &&& r is Ok
                &&& final(self).position() == (if old(self).position() + 1 < old(self).tokens().len() {
                    old(self).position() + 1
                } else {
                    old(self).position() as int
                })
            },
            spec_kind(old(self).current().token) != spec_kind(t) ==> {
                &&& r == Err::<(), ParseError>(
                    ParseError::UnexpectedToken {
                        token: old(self).current().token,
                        span: old(self).current().span,
                    },
                )
                &&& final(self).position() == old(self).position()
            },
            gives_unit(r, final(self).position(), expect_at(old(self).tokens(), old(self).position(), t)),
    {
        if self.current_token.token.same_kind(&t) {
            self.next_token();
            Ok(())
        } else {
            Err(self.unexpected(&self.current_token))
        }
    }

    /// Moves past line breaks and semicolons.
    pub fn skip_terminators(&mut self)
        requires
            old(self).wf(),
        ensures
            final(self).reads_on_from(*old(self)),
            final(self).struct_literals_allowed() == old(self).struct_literals_allowed(),
            !(final(self).current().token is Newline),
            !(final(self).current().token is Semicolon),
            forall|i: int|
                old(self).position() <= i < final(self).position() ==> {
                    ||| (#[trigger] final(self).tokens()[i]).token is Newline
                    ||| final(self).tokens()[i].token is Semicolon
                },
            final(self).position() == skip_terms(old(self).tokens(), old(self).position()),
    {
        while matches!(self.current_token.token, Token::Newline | Token::Semicolon)
            invariant
                self.reads_on_from(*old(self)),
                skip_terms(self.tokens@, self.pos as int) == skip_terms(old(self).tokens(), old(self).position()),
                self.allowed_struct_literal == old(self).struct_literals_allowed(),
                forall|i: int|
                    old(self).position() <= i < self.pos ==> {
                        ||| (#[trigger] self.tokens@[i]).token is Newline
                        ||| self.tokens@[i].token is Semicolon
                    },
            decreases self.tokens@.len() - self.pos,
        {
            self.next_token();
        }
    }

    /// Parses a whole source text: functions, structs and constants become
    /// declarations, every other statement goes to `main`.
    #[verifier::rlimit(40)]
    pub fn parse_program(&mut self) -> (r: Result<Program, ParseError>)
        requires
            old(self).wf(),
        ensures
            final(self).reads_on_from(*old(self)),
            r is Ok ==> final(self).at_end(),
            gives_program(
                r,
                final(self).position(),
                p_program(
                    old(self).tokens(),
                    old(self).position(),
                    old(self).nesting(),
                    old(self).struct_literals_allowed(),
                ),
            ),
    {
        let ghost ts = self.tokens@;
        let ghost p0 = self.pos as int;
        let ghost d = self.depth as int;
        let ghost a = self.allowed_struct_literal;
        let mut declarations: Vec<Statement> = Vec::new();
        let mut main: Vec<Statement> = Vec::new();
        self.skip_terminators();
        assert(stmts_v(declarations@) =~= Seq::<StmtV>::empty());
        assert(stmts_v(main@) =~= Seq::<StmtV>::empty());
        while !matches!(self.current_token.token, Token::Eof)
            invariant
                self.reads_on_from(*old(self)),
                ts == old(self).tokens(),
                p0 == old(self).position(),
                d == old(self).nesting(),
                a == old(self).struct_literals_allowed(),
                self.allowed_struct_literal == a,
                p_prog(ts, self.pos as int, d, a, stmts_v(declarations@), stmts_v(main@))
                    == p_program(ts, p0, d, a),
            decreases self.tokens@.len() - self.pos,
        {
            let stmt = self.parse_statement()?;
            let ghost sv = stmt_v(stmt);
            match stmt {
                Statement::Fun { .. } | Statement::Struct { .. } | Statement::Const { .. } => {
                    let ghost before = stmts_v(declarations@);
                    declarations.push(stmt);
                    assert(stmts_v(declarations@) =~= before.push(sv));
                },
                _ => {
                    let ghost before = stmts_v(main@);
                    main.push(stmt);
                    assert(stmts_v(main@) =~= before.push(sv));
                },
            }
            self.skip_terminators();
        }
        Ok(Program { declarations, main })
    }

    /// Parses one statement. The cursor ends on the first token after it.
    pub fn parse_statement(&mut self) -> (r: Result<Statement, ParseError>)
        requires
            old(self).wf(),
        ensures
            final(self).reads_on_from(*old(self)),
            r is Ok ==> final(self).position() > old(self).position(),
            r is Ok ==> final(self).struct_literals_allowed() == old(self).struct_literals_allowed(),
            old(self).at_end() ==> r is Err,
            gives_stmt(
                r,
                final(self).position(),
                p_stmt(
                    old(self).tokens(),
                    old(self).position(),
                    old(self).nesting(),
                    old(self).struct_literals_allowed(),
                ),
            ),
        decreases old(self).remaining(), 19nat,
    {
        match self.current_token.token {
            Token::Let | Token::Var | Token::Const => self.parse_binding(),
            Token::Return => self.parse_return(),
            Token::If => self.parse_if(),
            Token::For => self.parse_for(),
            Token::Struct => self.parse_struct(),
            Token::Fun if matches!(self.peek_token.token, Token::Identifier(_)) => self.parse_fun(),
            _ => {
                let span = self.current_token.span;
                let expression = self.parse_expression(Precedence::Lowest)?;
                self.next_token();
                Ok(Statement::Expression { expression, span })
            },
        }
    }

    /// Parses `let`, `var` or `const`, a name, `=` and a value.
    fn parse_binding(&mut self) -> (r: Result<Statement, ParseError>)
        requires
            old(self).wf(),
            old(self).current().token is Let || old(self).current().token is Var
                || old(self).current().token is Const,
        ensures
            final(self).reads_on_from(*old(self)),
            r is Ok ==> final(self).position() > old(self).position(),
            r is Ok ==> final(self).struct_literals_allowed() == old(self).struct_literals_allowed(),
            gives_stmt(
                r,
                final(self).position(),
                p_binding(
                    old(self).tokens(),
                    old(self).position(),
                    old(self).nesting(),
                    old(self).struct_literals_allowed(),
                ),
            ),
        decreases old(self).remaining(), 18nat,
    {
        let span = self.current_token.span;
        let keyword = self.current_token.token.kind();
        self.next_token();
        let name = match &self.current_token.token {
            Token::Identifier(n) => n.clone(),
            _ => {
                return Err(self.unexpected(&self.current_token));
            },
        };
        self.next_token();
        self.expect(Token::Assign)?;
        let value = self.parse_expression(Precedence::Lowest)?;
        self.next_token();
        if keyword == Token::Let.kind() {
            Ok(Statement::Let { name, value, span })
        } else if keyword == Token::Var.kind() {
            Ok(Statement::Var { name, value, span })
        } else {
            Ok(Statement::Const { name, value, span })
        }
    }

    /// Parses `return` with an optional value.
    fn parse_return(&mut self) -> (r: Result<Statement, ParseError>)
        requires
            old(self).wf(),
            old(self).current().token is Return,
        ensures
            final(self).reads_on_from(*old(self)),
            r is Ok ==> final(self).position() > old(self).position(),
            r is Ok ==> final(self).struct_literals_allowed() == old(self).struct_literals_allowed(),
            gives_stmt(
                r,
                final(self).position(),
                p_return(
                    old(self).tokens(),
                    old(self).position(),
                    old(self).nesting(),
                    old(self).struct_literals_allowed(),
                ),
            ),
        decreases old(self).remaining(), 18nat,
    {
        let span = self.current_token.span;
        self.next_token();
        if matches!(
            self.current_token.token,
            Token::Newline | Token::Semicolon | Token::RightBrace | Token::Eof
        ) {
            return Ok(Statement::Return { value: None, span });
        }
        let value = self.parse_expression(Precedence::Lowest)?;
        self.next_token();
        Ok(Statement::Return { value: Some(value), span })
    }

    /// Parses an expression where a `{` ends it rather than opening a struct
    /// literal (conditions of `if` and `for`, and what `for` ranges over).
    fn parse_condition(&mut self) -> (r: Result<Expression, ParseError>)
        requires
            old(self).wf(),
        ensures
            final(self).reads_on_from(*old(self)),
            r is Ok ==> final(self).moved_past(*old(self)),
            final(self).struct_literals_allowed() == old(self).struct_literals_allowed(),
            gives_expr(
                r,
                final(self).position(),
                p_expr(
                    old(self).tokens(),
                    old(self).position(),
                    Precedence::Lowest,
                    old(self).nesting(),
                    false,
                ),
            ),
        decreases old(self).remaining(), 17nat,
    {
        let saved = self.allowed_struct_literal;
        self.allowed_struct_literal = false;
        let e = self.parse_expression(Precedence::Lowest);
        self.allowed_struct_literal = saved;
        e
    }

    /// Parses a condition and the block after it; the cursor is on the
    /// condition and ends after the block's `}`.
    fn parse_cond_block(&mut self, Ghost(start): Ghost<int>) -> (r: Result<
        (Expression, Vec<Statement>),
        ParseError,
    >)
        requires
            old(self).wf(),
            start <= old(self).position(),
        ensures
            final(self).reads_on_from(*old(self)),
            r is Ok ==> final(self).position() > old(self).position(),
            r is Ok ==> final(self).struct_literals_allowed() == old(self).struct_literals_allowed(),
            match p_cond_block(
                old(self).tokens(),
                old(self).position(),
                start,
                old(self).nesting(),
                old(self).struct_literals_allowed(),
            ) {
                Parsed::Done((c, b), q) => r is Ok && expr_v(r->Ok_0.0) == c && stmts_v(r->Ok_0.1@)
                    == b && final(self).position() == q,
                Parsed::Failed(e) => r is Err && r->Err_0 == e,
            },
        decreases old(self).remaining(), 18nat,
    {
        let condition = self.parse_condition()?;
        self.next_token();
        self.expect(Token::LeftBrace)?;
        let block = self.parse_block()?;
        Ok((condition, block))
    }

    /// Parses `if`, its `else if` branches and its `else` block.
    fn parse_if(&mut self) -> (r: Result<Statement, ParseError>)
        requires
            old(self).wf(),
            old(self).current().token is If,
        ensures
            final(self).reads_on_from(*old(self)),
            r is Ok ==> final(self).position() > old(self).position(),
            r is Ok ==> final(self).struct_literals_allowed() == old(self).struct_literals_allowed(),
            gives_stmt(
                r,
                final(self).position(),
                p_if(
                    old(self).tokens(),
                    old(self).position(),
                    old(self).nesting(),
                    old(self).struct_literals_allowed(),
                ),
            ),
        decreases old(self).remaining(), 18nat,
    {
        let ghost ts = self.tokens@;
        let ghost p0 = self.pos as int;
        let ghost d = self.depth as int;
        let ghost a = self.allowed_struct_literal;
        let span = self.current_token.span;
        self.expect(Token::If)?;
        let (condition, then_block) = self.parse_cond_block(Ghost(p0))?;
        let (else_if, else_block) = self.parse_else_branches()?;
        let st = IfStatement { condition, then_block, else_if, else_block, span };
        proof {
            let v = stmt_v(Statement::If(st));
            assert(v->If_then_block =~= stmts_v(st.then_block@));
            assert(v->If_else_block =~= stmts_v(st.else_block@));
            assert forall|i: int| 0 <= i < st.else_if@.len() implies (#[trigger] v->If_else_if[i])
                == crate::parser::tree::else_ifs_v(st.else_if@)[i] by {
                assert(v->If_else_if[i].block =~= stmts_v(st.else_if@[i].block@));
            }
            assert(v->If_else_if =~= crate::parser::tree::else_ifs_v(st.else_if@));
        }
        Ok(Statement::If(st))
    }

    /// Parses `else if` branches and an optional `else` block.
    #[verifier::rlimit(40)]
    fn parse_else_branches(&mut self) -> (r: Result<(Vec<ElseIf>, Vec<Statement>), ParseError>)
        requires
            old(self).wf(),
        ensures
            final(self).reads_on_from(*old(self)),
            r is Ok ==> final(self).struct_literals_allowed() == old(self).struct_literals_allowed(),
            match p_else(
                old(self).tokens(),
                old(self).position(),
                old(self).nesting(),
                old(self).struct_literals_allowed(),
                Seq::empty(),
            ) {
                Parsed::Done((eis, eb), q) => r is Ok && crate::parser::tree::else_ifs_v(r->Ok_0.0@)
                    == eis && stmts_v(r->Ok_0.1@) == eb && final(self).position() == q,
                Parsed::Failed(e) => r is Err && r->Err_0 == e,
            },
        decreases old(self).remaining(), 19nat,
    {
        let ghost ts = self.tokens@;
        let ghost p0 = self.pos as int;
        let ghost d = self.depth as int;
        let ghost a = self.allowed_struct_literal;
        let mut else_if: Vec<ElseIf> = Vec::new();
        let mut else_block: Vec<Statement> = Vec::new();
        assert(crate::parser::tree::else_ifs_v(else_if@) =~= Seq::<crate::parser::tree::ElseIfV>::empty());
        assert(stmts_v(else_block@) =~= Seq::<StmtV>::empty());
        while matches!(self.current_token.token, Token::Else)
            invariant_except_break
                stmts_v(else_block@) == Seq::<StmtV>::empty(),
                p_else(ts, self.pos as int, d, a, crate::parser::tree::else_ifs_v(else_if@)) == p_else(
                    ts,
                    p0,
                    d,
                    a,
                    Seq::empty(),
                ),
            invariant
                self.reads_on_from(*old(self)),
                ts == old(self).tokens(),
                p0 == old(self).position(),
                d == old(self).nesting(),
                a == old(self).struct_literals_allowed(),
                self.allowed_struct_literal == a,
            ensures
                p_else(ts, p0, d, a, Seq::empty()) == Parsed::Done(
                    (crate::parser::tree::else_ifs_v(else_if@), stmts_v(else_block@)),
                    self.pos as int,
                ),
            decreases self.tokens@.len() - self.pos,
        {
            let else_span = self.current_token.span;
            self.next_token();
            if matches!(self.current_token.token, Token::If) {
                self.next_token();
                let ghost c0 = self.pos as int;
                let (condition, block) = self.parse_cond_block(Ghost(c0))?;
                let ghost before = crate::parser::tree::else_ifs_v(else_if@);
                let ei = ElseIf { condition, block, span: else_span };
                let ghost eiv = crate::parser::tree::ElseIfV {
                    condition: expr_v(ei.condition),
                    block: stmts_v(ei.block@),
                    span: else_span,
                };
                else_if.push(ei);
                assert(crate::parser::tree::else_ifs_v(else_if@) =~= before.push(eiv));
            } else {
                self.expect(Token::LeftBrace)?;
                else_block = self.parse_block()?;
                break;
            }
        }
        Ok((else_if, else_block))
    }

    /// Parses the three forms of `for`: `for name = init; condition; post {..}`,
    /// `for name in iterable {..}` and `for condition {..}`.
    fn parse_for(&mut self) -> (r: Result<Statement, ParseError>)
        requires
            old(self).wf(),
            old(self).current().token is For,
        ensures
            final(self).reads_on_from(*old(self)),
            r is Ok ==> final(self).position() > old(self).position(),
            r is Ok ==> final(self).struct_literals_allowed() == old(self).struct_literals_allowed(),
            gives_stmt(
                r,
                final(self).position(),
                p_for(
                    old(self).tokens(),
                    old(self).position(),
                    old(self).nesting(),
                    old(self).struct_literals_allowed(),
                ),
            ),
        decreases old(self).remaining(), 18nat,
    {
        let ghost p0 = self.pos as int;
        let span = self.current_token.span;
        self.expect(Token::For)?;
        let counter = matches!(self.current_token.token, Token::Identifier(_)) && matches!(
            self.peek_token.token,
            Token::Assign
        );
        let ranged = matches!(self.current_token.token, Token::Identifier(_)) && matches!(
            self.peek_token.token,
            Token::In
        );
        if counter {
            self.parse_for_counter(span, Ghost(p0))
        } else if ranged {
            self.parse_for_range(span, Ghost(p0))
        } else {
            let (condition, body) = self.parse_cond_block(Ghost(p0))?;
            let r = Statement::ForCondition { condition, body, span };
            assert(stmt_v(r)->ForCondition_body =~= stmts_v(body@));
            Ok(r)
        }
    }

    /// Parses `name = init; condition; post { body }` after `for`.
    fn parse_for_counter(&mut self, span: Span, Ghost(p0): Ghost<int>) -> (r: Result<
        Statement,
        ParseError,
    >)
        requires
            old(self).wf(),
            old(self).current().token is Identifier,
            p0 < old(self).position(),
            span == old(self).tokens()[p0].span,
        ensures
            final(self).reads_on_from(*old(self)),
            r is Ok ==> final(self).position() > old(self).position(),
            r is Ok ==> final(self).struct_literals_allowed() == old(self).struct_literals_allowed(),
            gives_stmt(
                r,
                final(self).position(),
                crate::parser::grammar::p_for_counter(
                    old(self).tokens(),
                    old(self).position(),
                    p0,
                    old(self).nesting(),
                    old(self).struct_literals_allowed(),
                ),
            ),
        decreases old(self).remaining(), 18nat,
    {
        let init_span = self.current_token.span;
        let variable = match &self.current_token.token {
            Token::Identifier(n) => n.clone(),
            _ => {
                return Err(self.unexpected(&self.current_token));
            },
        };
        self.next_token();
        self.expect(Token::Assign)?;
        let value = self.parse_condition()?;
        self.next_token();
        self.expect(Token::Semicolon)?;
        let init = Statement::Let { name: variable, value, span: init_span };
        self.parse_for_tail(span, Ghost(p0), init)
    }

    /// Parses `condition; post { body }` of a counting `for` whose `init` has
    /// been read.
    fn parse_for_tail(&mut self, span: Span, Ghost(p0): Ghost<int>, init: Statement) -> (r: Result<
        Statement,
        ParseError,
    >)
        requires
            old(self).wf(),
            p0 < old(self).position(),
            span == old(self).tokens()[p0].span,
        ensures
            final(self).reads_on_from(*old(self)),
            r is Ok ==> final(self).position() > old(self).position(),
            r is Ok ==> final(self).struct_literals_allowed() == old(self).struct_literals_allowed(),
            gives_stmt(
                r,
                final(self).position(),
                crate::parser::grammar::p_for_tail(
                    old(self).tokens(),
                    old(self).position(),
                    p0,
                    old(self).nesting(),
                    old(self).struct_literals_allowed(),
                    stmt_v(init),
                ),
            ),
        decreases old(self).remaining(), 18nat,
    {
        let condition = self.parse_condition()?;
        self.next_token();
        self.expect(Token::Semicolon)?;
        let (post, body) = self.parse_cond_block(Ghost(p0))?;
        let r = Statement::ForCounter { init: Box::new(init), condition, post, body, span };
        assert(stmt_v(r)->ForCounter_body =~= stmts_v(body@));
        Ok(r)
    }

    /// Parses `name in iterable { body }` after `for`.
    fn parse_for_range(&mut self, span: Span, Ghost(p0): Ghost<int>) -> (r: Result<
        Statement,
        ParseError,
    >)
        requires
            old(self).wf(),
            old(self).current().token is Identifier,
            p0 < old(self).position(),
            span == old(self).tokens()[p0].span,
        ensures
            final(self).reads_on_from(*old(self)),
            r is Ok ==> final(self).position() > old(self).position(),
            r is Ok ==> final(self).struct_literals_allowed() == old(self).struct_literals_allowed(),
            gives_stmt(
                r,
                final(self).position(),
                crate::parser::grammar::p_for_range(
                    old(self).tokens(),
                    old(self).position(),
                    p0,
                    old(self).nesting(),
                    old(self).struct_literals_allowed(),
                ),
            ),
        decreases old(self).remaining(), 18nat,
    {
        let variable = match &self.current_token.token {
            Token::Identifier(n) => n.clone(),
            _ => {
                return Err(self.unexpected(&self.current_token));
            },
        };
        self.next_token();
        self.expect(Token::In)?;
        let (iterable, body) = self.parse_cond_block(Ghost(p0))?;
        let r = Statement::ForRange { variable, iterable, body, span };
        assert(stmt_v(r)->ForRange_body =~= stmts_v(body@));
        Ok(r)
    }

    /// Parses the parameters, the optional `[return type]` and the `{` of a
    /// function; the cursor is on `(` and ends after `{`.
    fn parse_signature(&mut self) -> (r: Result<(Vec<FunParam>, Option<Type>), ParseError>)
        requires
            old(self).wf(),
        ensures
            final(self).reads_on_from(*old(self)),
            final(self).struct_literals_allowed() == old(self).struct_literals_allowed(),
            match p_signature(old(self).tokens(), old(self).position()) {
                Parsed::Done((ps, rt), q) => r is Ok && params_v(r->Ok_0.0@) == ps
                    && crate::parser::tree::type_opt_v(r->Ok_0.1) == rt && final(self).position() == q,
                Parsed::Failed(e) => r is Err && r->Err_0 == e,
            },
    {
        self.expect(Token::LeftParen)?;
        let params = self.parse_fun_params()?;
        self.expect(Token::RightParen)?;
        let mut return_type = None;
        if matches!(self.current_token.token, Token::LeftBracket) {
            self.next_token();
            return_type = Some(self.parse_type()?);
            self.expect(Token::RightBracket)?;
        }
        self.expect(Token::LeftBrace)?;
        Ok((params, return_type))
    }

    /// Parses `fun name(params) [return type] { body }`.
    fn parse_fun(&mut self) -> (r: Result<Statement, ParseError>)
        requires
            old(self).wf(),
            old(self).current().token is Fun,
        ensures
            final(self).reads_on_from(*old(self)),
            r is Ok ==> final(self).position() > old(self).position(),
            r is Ok ==> final(self).struct_literals_allowed() == old(self).struct_literals_allowed(),
            gives_stmt(
                r,
                final(self).position(),
                p_fun(
                    old(self).tokens(),
                    old(self).position(),
                    old(self).nesting(),
                    old(self).struct_literals_allowed(),
                ),
            ),
        decreases old(self).remaining(), 18nat,
    {
        let span = self.current_token.span;
        self.expect(Token::Fun)?;
        let name = match &self.current_token.token {
            Token::Identifier(n) => n.clone(),
            _ => {
                return Err(self.unexpected(&self.current_token));
            },
        };
        self.next_token();
        let (params, return_type) = self.parse_signature()?;
        let body = self.parse_block()?;
        let r = Statement::Fun { name, params, return_type, body, span };
        assert(stmt_v(r)->Fun_body =~= stmts_v(body@));
        Ok(r)
    }

    /// Parses `struct Name { field: type, .. }`; fields are separated by commas
    /// or line breaks.
    fn parse_struct(&mut self) -> (r: Result<Statement, ParseError>)
        requires
            old(self).wf(),
            old(self).current().token is Struct,
        ensures
            final(self).reads_on_from(*old(self)),
            r is Ok ==> final(self).position() > old(self).position(),
            r is Ok ==> final(self).struct_literals_allowed() == old(self).struct_literals_allowed(),
            gives_stmt(r, final(self).position(), p_struct(old(self).tokens(), old(self).position())),
        decreases old(self).remaining(), 18nat,
    {
        let ghost ts = self.tokens@;
        let ghost p0 = self.pos as int;
        let span = self.current_token.span;
        self.expect(Token::Struct)?;
        let name = match &self.current_token.token {
            Token::Identifier(n) => n.clone(),
            _ => {
                return Err(self.unexpected(&self.current_token));
            },
        };
        self.next_token();
        self.expect(Token::LeftBrace)?;
        self.skip_terminators();
        let mut fields: Vec<FunParam> = Vec::new();
        let ghost k = self.pos as int;
        assert(params_v(fields@) =~= Seq::<crate::parser::tree::ParamV>::empty());
        while !matches!(self.current_token.token, Token::RightBrace)
            invariant
                self.reads_on_from(*old(self)),
                self.pos > old(self).position(),
                ts == old(self).tokens(),
                p0 == old(self).position(),
                p_struct(ts, p0) == (match p_sfields(ts, k, Seq::empty()) {
                    Parsed::Done(fs, q3) => Parsed::Done(
                        StmtV::Struct { name: name@, fields: fs, span: ts[p0].span },
                        nx(ts, q3),
                    ),
                    Parsed::Failed(e) => Parsed::Failed(e),
                }),
                p_sfields(ts, self.pos as int, params_v(fields@)) == p_sfields(ts, k, Seq::empty()),
                span == ts[p0].span,
                self.allowed_struct_literal == old(self).struct_literals_allowed(),
            decreases self.tokens@.len() - self.pos,
        {
            let field_span = self.current_token.span;
            let field_name = match &self.current_token.token {
                Token::Identifier(n) => n.clone(),
                _ => {
                    return Err(self.unexpected(&self.current_token));
                },
            };
            self.next_token();
            self.expect(Token::Colon)?;
            let param_type = self.parse_type()?;
            let ghost before = params_v(fields@);
            let fp = FunParam { name: field_name, param_type, span: field_span };
            let ghost fv = param_v(fp);
            fields.push(fp);
            assert(params_v(fields@) =~= before.push(fv));
            if matches!(self.current_token.token, Token::Comma) {
                self.next_token();
                self.skip_terminators();
            } else if matches!(self.current_token.token, Token::Newline | Token::Semicolon) {
                self.skip_terminators();
            } else if !matches!(self.current_token.token, Token::RightBrace) {
                return Err(self.unexpected(&self.current_token));
            }
        }
        self.next_token();
        Ok(Statement::Struct { name, fields, span })
    }

    /// Parses the statements of a block whose `{` has been read, up to and past
    /// its `}`.
    pub fn parse_block(&mut self) -> (r: Result<Vec<Statement>, ParseError>)
        requires
            old(self).wf(),
        ensures
            final(self).reads_on_from(*old(self)),
            r is Ok ==> final(self).moved_past(*old(self)),
            r is Ok ==> final(self).struct_literals_allowed() == old(self).struct_literals_allowed(),
            gives_stmts(
                r,
                final(self).position(),
                p_block(
                    old(self).tokens(),
                    old(self).position(),
                    old(self).nesting(),
                    old(self).struct_literals_allowed(),
                ),
            ),
        decreases old(self).remaining(), 20nat,
    {
        let ghost ts = self.tokens@;
        let ghost p0 = self.pos as int;
        let ghost d = self.depth as int;
        let ghost a = self.allowed_struct_literal;
        let mut body: Vec<Statement> = Vec::new();
        self.skip_terminators();
        assert(stmts_v(body@) =~= Seq::<StmtV>::empty());
        while !matches!(self.current_token.token, Token::RightBrace)
            invariant
                self.reads_on_from(*old(self)),
                ts == old(self).tokens(),
                p0 == old(self).position(),
                d == old(self).nesting(),
                a == old(self).struct_literals_allowed(),
                self.allowed_struct_literal == a,
                p_stmts(ts, self.pos as int, d, a, stmts_v(body@)) == p_block(ts, p0, d, a),
            decreases self.tokens@.len() - self.pos,
        {
            let stmt = self.parse_statement()?;
            let ghost before = stmts_v(body@);
            let ghost sv = stmt_v(stmt);
            body.push(stmt);
            assert(stmts_v(body@) =~= before.push(sv));
            self.skip_terminators();
        }
        self.next_token();
        Ok(body)
    }

    /// Parses a type: one alternative, or several separated by `|`. The cursor
    /// ends on the first token after the type.
    pub fn parse_type(&mut self) -> (r: Result<Type, ParseError>)
        requires
            old(self).wf(),
        ensures
            final(self).reads_on_from(*old(self)),
            final(self).struct_literals_allowed() == old(self).struct_literals_allowed(),
            r is Ok ==> final(self).position() > old(self).position(),
            gives_type(r, final(self).position(), p_type(old(self).tokens(), old(self).position())),
        decreases old(self).remaining(), 1nat,
    {
        let ghost ts = self.tokens@;
        let ghost p0 = self.pos as int;
        let first = self.parse_single_type()?;
        if !matches!(self.current_token.token, Token::Pipe) {
            return Ok(first);
        }
        let mut alternatives: Vec<Type> = Vec::new();
        alternatives.push(first);
        assert(types_v(alternatives@) =~= seq![type_v(first)]);
        while matches!(self.current_token.token, Token::Pipe)
            invariant
                self.reads_on_from(*old(self)),
                ts == old(self).tokens(),
                p0 == old(self).position(),
                self.allowed_struct_literal == old(self).struct_literals_allowed(),
                self.pos > old(self).position(),
                p_alts(ts, self.pos as int, types_v(alternatives@)) == p_type(ts, p0),
            decreases self.tokens@.len() - self.pos,
        {
            let ghost pos = self.pos as int;
            let ghost before = types_v(alternatives@);
            self.next_token();
            let t = self.parse_single_type()?;
            let ghost tv = type_v(t);
            alternatives.push(t);
            assert(types_v(alternatives@) =~= before.push(tv));
        }
        let r = Type::Union(alternatives);
        assert(type_v(r) == TypeV::Union(types_v(alternatives@))) by {
            assert(type_v(r)->Union_0 =~= types_v(alternatives@));
        }
        Ok(r)
    }

    /// Parses a primitive type, a dotted name, or a name applied to a type in
    /// parentheses.
    fn parse_single_type(&mut self) -> (r: Result<Type, ParseError>)
        requires
            old(self).wf(),
        ensures
            final(self).reads_on_from(*old(self)),
            final(self).struct_literals_allowed() == old(self).struct_literals_allowed(),
            r is Ok ==> final(self).position() > old(self).position(),
            gives_type(r, final(self).position(), p_single_type(old(self).tokens(), old(self).position())),
        decreases old(self).remaining(), 0nat,
    {
        let ghost ts = self.tokens@;
        let ghost p0 = self.pos as int;
        let name = match &self.current_token.token {
            Token::Identifier(n) => n.clone(),
            _ => {
                return Err(self.unexpected(&self.current_token));
            },
        };
        self.next_token();
        if matches!(self.current_token.token, Token::LeftParen) {
            self.next_token();
            let param = self.parse_type()?;
            self.expect(Token::RightParen)?;
            return Ok(Type::Generic { name, param: Box::new(param) });
        }
        if !matches!(self.current_token.token, Token::Dot) {
            if let Some(p) = primitive_named(&name) {
                return Ok(Type::Primitive(p));
            }
        }
        let mut segments: Vec<String> = Vec::new();
        segments.push(name);
        assert(Seq::new(segments@.len(), |i: int| segments@[i]@) =~= seq![name@]);
        while matches!(self.current_token.token, Token::Dot)
            invariant
                self.reads_on_from(*old(self)),
                ts == old(self).tokens(),
                p0 == old(self).position(),
                self.allowed_struct_literal == old(self).struct_literals_allowed(),
                self.pos > old(self).position(),
                p_segments(ts, self.pos as int, Seq::new(segments@.len(), |i: int| segments@[i]@))
                    == p_single_type(ts, p0),
            decreases self.tokens@.len() - self.pos,
        {
            let ghost before = Seq::new(segments@.len(), |i: int| segments@[i]@);
            self.next_token();
            let seg = match &self.current_token.token {
                Token::Identifier(n) => n.clone(),
                _ => {
                    return Err(self.unexpected(&self.current_token));
                },
            };
            segments.push(seg);
            assert(Seq::new(segments@.len(), |i: int| segments@[i]@) =~= before.push(seg@));
            self.next_token();
        }
        Ok(Type::Named(TypePath { segments }))
    }
}

impl Parser {
    /// Parses an expression whose operators bind more strongly than
    /// `precedence` (`=` and `**` group to the right). The cursor ends on the
    /// expression's last token. Fails with `TooDeep` when expressions nest more
    /// than `MAX_DEPTH` deep.
    pub fn parse_expression(&mut self, precedence: Precedence) -> (r: Result<Expression, ParseError>)
        requires
            old(self).wf(),
        ensures
            final(self).reads_on_from(*old(self)),
            r is Ok ==> final(self).moved_past(*old(self)),
            r is Ok ==> final(self).struct_literals_allowed() == old(self).struct_literals_allowed(),
            final(self).nesting() == old(self).nesting(),
            old(self).nesting() == MAX_DEPTH ==> r == Err::<Expression, ParseError>(
                ParseError::TooDeep { span: old(self).current().span },
            ),
            old(self).nesting() == MAX_DEPTH ==> {
                &&& final(self).position() == old(self).position()
                &&& final(self).current() == old(self).current()
                &&& final(self).peek() == old(self).peek()
            },
            gives_expr(
                r,
                final(self).position(),
                p_expr(
                    old(self).tokens(),
                    old(self).position(),
                    precedence,
                    old(self).nesting(),
                    old(self).struct_literals_allowed(),
                ),
            ),
        decreases old(self).remaining(), 16nat,
    {
        self.depth = self.depth + 1;
        if self.depth > MAX_DEPTH {
            self.depth = self.depth - 1;
            return Err(ParseError::TooDeep { span: self.current_token.span });
        }
        let result = self.parse_expression_inner(precedence);
        self.depth = self.depth - 1;
        result
    }

    fn parse_expression_inner(&mut self, precedence: Precedence) -> (r: Result<
        Expression,
        ParseError,
    >)
        requires
            old(self).wf(),
        ensures
            final(self).reads_on_from(*old(self)),
            r is Ok ==> final(self).moved_past(*old(self)),
            r is Ok ==> final(self).struct_literals_allowed() == old(self).struct_literals_allowed(),
            gives_expr(
                r,
                final(self).position(),
                p_inner(
                    old(self).tokens(),
                    old(self).position(),
                    precedence,
                    old(self).nesting(),
                    old(self).struct_literals_allowed(),
                ),
            ),
        decreases old(self).remaining(), 15nat,
    {
        let ghost ts = self.tokens@;
        let ghost p0 = self.pos as int;
        let ghost d = self.depth as int;
        let ghost a = self.allowed_struct_literal;
        let start_span = self.current_token.span;
        let mut left = match self.current_token.token {
            Token::Int(v) => Expression::IntLiteral { val: v, span: start_span },
            Token::Float(ref v) => Expression::FloatLiteral { val: v.clone(), span: start_span },
            Token::Identifier(ref s) => {
                let name = s.clone();
                if self.allowed_struct_literal && matches!(self.peek_token.token, Token::LeftBrace) {
                    self.next_token();
                    self.expect(Token::LeftBrace)?;
                    self.skip_terminators();
                    let ghost k = self.pos as int;
                    let mut fields: Vec<StructLiteralField> = Vec::new();
                    assert(fields_v(fields@) =~= Seq::<(Seq<char>, ExprV)>::empty());
                    assert(p_fields(ts, k, d, a, Seq::empty()) is Failed ==> p_inner(ts, p0, precedence, d, a)
                        == Parsed::<ExprV>::Failed(p_fields(ts, k, d, a, Seq::empty())->Failed_0));
                    while !matches!(self.current_token.token, Token::RightBrace)
                        invariant
                            self.reads_on_from(*old(self)),
                            self.pos > old(self).position(),
                            ts == old(self).tokens(),
                            d == old(self).nesting(),
                            a == old(self).struct_literals_allowed(),
                            self.allowed_struct_literal == a,
                            k > p0,
                            p0 == old(self).position(),
                            p_fields(ts, k, d, a, Seq::empty()) is Failed ==> p_inner(ts, p0, precedence, d, a)
                                == Parsed::<ExprV>::Failed(p_fields(ts, k, d, a, Seq::empty())->Failed_0),
                            p_fields(ts, self.pos as int, d, a, fields_v(fields@)) == p_fields(
                                ts,
                                k,
                                d,
                                a,
                                Seq::empty(),
                            ),
                        ensures
                            self.reads_on_from(*old(self)),
                            self.pos > old(self).position(),
                            self.allowed_struct_literal == a,
                            p_fields(ts, k, d, a, Seq::empty()) == Parsed::Done(
                                fields_v(fields@),
                                self.pos as int,
                            ),
                        decreases self.tokens@.len() - self.pos,
                    {
                        let ghost pos = self.pos as int;
                        let field_name = match &self.current_token.token {
                            Token::Identifier(n) => n.clone(),
                            _ => {
                                return Err(self.unexpected(&self.current_token));
                            },
                        };
                        self.next_token();
                        self.expect(Token::Colon)?;
                        let field_val = Box::new(self.parse_expression(Precedence::Lowest)?);
                        let ghost before = fields_v(fields@);
                        let ghost fv = (field_name@, expr_v(*field_val));
                        fields.push(StructLiteralField { field_name, field_val });
                        assert(fields_v(fields@) =~= before.push(fv));
                        self.next_token();
                        self.skip_terminators();
                        if matches!(self.current_token.token, Token::Comma) {
                            self.expect(Token::Comma)?;
                        } else if matches!(self.current_token.token, Token::RightBrace) {
                            break;
                        } else {
                            return Err(self.unexpected(&self.current_token));
                        }
                        self.skip_terminators();
                    }
                    self.skip_terminators();
                    let e = Expression::StructLiteral { name, fields, span: start_span };
                    assert(expr_v(e)->StructLiteral_fields =~= fields_v(fields@));
                    e
                } else {
                    Expression::Identifier { name, span: start_span }
                }
            },
            Token::Bool(b) => Expression::BoolLiteral { val: b, span: start_span },
            Token::String(ref s) => Expression::StringLiteral { val: s.clone(), span: start_span },
            Token::LeftParen => {
                self.next_token();
                let expr = self.parse_expression(Precedence::Lowest)?;
                if matches!(self.peek_token.token, Token::RightParen) {
                    self.next_token();
                    expr
                } else {
                    return Err(self.unexpected(&self.current_token));
                }
            },
            Token::Subtract | Token::LogicNot | Token::BitNot | Token::Increment
            | Token::Decrement => {
                let operator = self.current_token.token.clone();
                self.next_token();
                let right = self.parse_expression(Precedence::Prefix)?;
                Expression::Prefix { operator, right: Box::new(right), span: start_span }
            },
            Token::Match => self.parse_match_expression()?,
            Token::Fun => self.parse_lambda()?,
            _ => {
                return Err(self.unexpected(&self.current_token));
            },
        };
        assert(p_inner(ts, p0, precedence, d, a) == p_loop(
            ts,
            self.pos as int,
            precedence,
            d,
            a,
            expr_v(left),
            start_span,
        ));
        loop
            invariant
                self.reads_on_from(*old(self)),
                self.moved_past(*old(self)),
                ts == old(self).tokens(),
                p0 == old(self).position(),
                d == old(self).nesting(),
                a == old(self).struct_literals_allowed(),
                self.allowed_struct_literal == a,
                p_loop(ts, self.pos as int, precedence, d, a, expr_v(left), start_span) == p_inner(
                    ts,
                    p0,
                    precedence,
                    d,
                    a,
                ),
            ensures
                self.reads_on_from(*old(self)),
                self.moved_past(*old(self)),
                self.allowed_struct_literal == a,
                p_inner(ts, p0, precedence, d, a) == Parsed::Done(expr_v(left), self.pos as int),
            decreases self.tokens@.len() - self.pos,
        {
            let ghost pos = self.pos as int;
            let ghost lv = expr_v(left);
            let peek_prec = self.peek_precedence();
            let continues = precedence.binds_weaker_than(peek_prec) || (precedence.rank()
                == peek_prec.rank() && matches!(
                self.peek_token.token,
                Token::Assign | Token::Power
            ));
            if !continues {
                break;
            }
            match self.peek_token.token {
                Token::Add | Token::Subtract | Token::Multiply | Token::Divide | Token::Modulus
                | Token::Equals | Token::NotEquals | Token::Less | Token::Greater
                | Token::LessOrEquals | Token::GreaterOrEquals | Token::Assign | Token::Power
                | Token::AddAndAssign | Token::SubAndAssign | Token::MulAndAssign
                | Token::DivAndAssign | Token::ModAndAssign | Token::LogicAnd | Token::LogicOr
                | Token::BitAnd | Token::BitOr | Token::BitXOR | Token::LeftShift
                | Token::RightShift => {
                    self.next_token();
                    let operator = self.current_token.token.clone();
                    self.next_token();
                    let right = self.parse_expression(peek_prec)?;
                    left =
                        Expression::Infix {
                            left: Box::new(left),
                            operator,
                            right: Box::new(right),
                            span: start_span,
                        };
                },
                Token::Decrement | Token::Increment | Token::Pipe => {
                    self.next_token();
                    let operator = self.current_token.token.clone();
                    left = Expression::Postfix { left: Box::new(left), operator, span: start_span };
                },
                Token::Dot => {
                    self.next_token();
                    left = self.parse_dot(left, start_span)?;
                },
                Token::LeftParen => {
                    self.next_token();
                    let args = self.parse_call_args()?;
                    left = Expression::Call { function: Box::new(left), args, span: start_span };
                    assert(expr_v(left)->Call_args =~= exprs_v(args@));
                },
                Token::LeftBracket => {
                    self.next_token();
                    left = self.parse_index_expression(left)?;
                },
                Token::Sprout => {
                    self.next_token();
                    self.next_token();
                    let right = self.parse_expression(Precedence::Sprout)?;
                    let mut args: Vec<Expression> = Vec::new();
                    args.push(left);
                    left = Expression::Call { function: Box::new(right), args, span: start_span };
                    assert(expr_v(left)->Call_args =~= seq![lv]);
                },
                Token::Colon | Token::DoubleDot => {
                    self.next_token();
                    left = self.parse_infix_range(left)?;
                },
                _ => {
                    break;
                },
            }
        }
        Ok(left)
    }

    /// Parses `[index]` after the indexed expression; the cursor is on `[`.
    fn parse_index_expression(&mut self, left: Expression) -> (r: Result<Expression, ParseError>)
        requires
            old(self).wf(),
            old(self).current().token is LeftBracket,
        ensures
            final(self).reads_on_from(*old(self)),
            r is Ok ==> final(self).moved_past(*old(self)),
            r is Ok ==> final(self).struct_literals_allowed() == old(self).struct_literals_allowed(),
            gives_expr(
                r,
                final(self).position(),
                p_index(
                    old(self).tokens(),
                    old(self).position(),
                    old(self).nesting(),
                    old(self).struct_literals_allowed(),
                    expr_v(left),
                ),
            ),
        decreases old(self).remaining(), 10nat,
    {
        let start_span = self.current_token.span;
        self.next_token();
        let index = self.parse_expression(Precedence::Lowest)?;
        if !matches!(self.peek_token.token, Token::RightBracket) {
            return Err(self.unexpected(&self.peek_token));
        }
        self.next_token();
        Ok(Expression::Index { left: Box::new(left), index: Box::new(index), span: start_span })
    }

    /// Parses `match target { pattern => body, .. }`; the cursor is on `match`
    /// and ends on the closing `}`.
    pub fn parse_match_expression(&mut self) -> (r: Result<Expression, ParseError>)
        requires
            old(self).wf(),
        ensures
            final(self).reads_on_from(*old(self)),
            r is Ok ==> final(self).moved_past(*old(self)),
            r is Ok ==> final(self).struct_literals_allowed() == old(self).struct_literals_allowed(),
            gives_expr(
                r,
                final(self).position(),
                p_match(
                    old(self).tokens(),
                    old(self).position(),
                    old(self).nesting(),
                    old(self).struct_literals_allowed(),
                ),
            ),
        decreases old(self).remaining(), 14nat,
    {
        let ghost ts = self.tokens@;
        let ghost p0 = self.pos as int;
        let ghost d = self.depth as int;
        let ghost a = self.allowed_struct_literal;
        let start_span = self.current_token.span;
        self.expect(Token::Match)?;
        let saved = self.allowed_struct_literal;
        self.allowed_struct_literal = false;
        let target = self.parse_expression(Precedence::Lowest)?;
        self.allowed_struct_literal = saved;
        self.next_token();
        self.expect(Token::LeftBrace)?;
        self.skip_arm_separators();
        let mut arms: Vec<MatchArm> = Vec::new();
        let ghost tv = expr_v(target);
        assert(crate::parser::tree::arms_v(arms@) =~= Seq::<crate::parser::tree::ArmV>::empty());
        while !matches!(self.current_token.token, Token::RightBrace | Token::Eof)
            invariant
                self.reads_on_from(*old(self)),
                self.pos > old(self).position(),
                ts == old(self).tokens(),
                p0 == old(self).position(),
                d == old(self).nesting(),
                a == old(self).struct_literals_allowed(),
                self.allowed_struct_literal == a,
                start_span == ts[p0].span,
                tv == expr_v(target),
                p_arms(ts, self.pos as int, d, a, start_span, tv, crate::parser::tree::arms_v(arms@))
                    == p_match(ts, p0, d, a),
            decreases self.tokens@.len() - self.pos,
        {
            let ghost pos = self.pos as int;
            let pattern = self.parse_pattern()?;
            self.next_token();
            self.expect(Token::FatArrow)?;
            let body = if matches!(self.current_token.token, Token::LeftBrace) {
                self.next_token();
                let block_stmts = self.parse_block()?;
                let b = Expression::Block { body: block_stmts, span: start_span };
                assert(expr_v(b)->Block_body =~= stmts_v(block_stmts@));
                b
            } else {
                let saved = self.allowed_struct_literal;
                self.allowed_struct_literal = false;
                let e = self.parse_expression(Precedence::Lowest)?;
                self.allowed_struct_literal = saved;
                self.next_token();
                e
            };
            let ghost before = crate::parser::tree::arms_v(arms@);
            let arm = MatchArm { pattern, body, span: start_span };
            let ghost av = crate::parser::tree::ArmV {
                pattern: expr_v(arm.pattern),
                body: expr_v(arm.body),
                span: start_span,
            };
            arms.push(arm);
            assert(crate::parser::tree::arms_v(arms@) =~= before.push(av));
            self.skip_arm_separators();
        }
        if !matches!(self.current_token.token, Token::RightBrace | Token::Eof) {
            return Err(self.unexpected(&self.current_token));
        }
        let r = Expression::Match { target: Box::new(target), arms, span: start_span };
        assert(expr_v(r)->Match_arms =~= crate::parser::tree::arms_v(arms@));
        Ok(r)
    }

    /// Parses `.name` or `.name(args)` after `left`; the cursor is on `.`.
    pub fn parse_dot(&mut self, left: Expression, span: Span) -> (r: Result<Expression, ParseError>)
        requires
            old(self).wf(),
        ensures
            final(self).reads_on_from(*old(self)),
            r is Ok ==> final(self).moved_past(*old(self)),
            r is Ok ==> final(self).struct_literals_allowed() == old(self).struct_literals_allowed(),
            gives_expr(
                r,
                final(self).position(),
                p_dot(
                    old(self).tokens(),
                    old(self).position(),
                    old(self).nesting(),
                    old(self).struct_literals_allowed(),
                    expr_v(left),
                    span,
                ),
            ),
        decreases old(self).remaining(), 10nat,
    {
        self.expect(Token::Dot)?;
        let name = match &self.current_token.token {
            Token::Identifier(name) => name.clone(),
            _ => {
                return Err(self.unexpected(&self.current_token));
            },
        };
        if matches!(self.peek_token.token, Token::LeftParen) {
            self.next_token();
            let args = self.parse_call_args()?;
            let r = Expression::MethodCall { object: Box::new(left), name, args, span };
            assert(expr_v(r)->MethodCall_args =~= exprs_v(args@));
            Ok(r)
        } else {
            Ok(Expression::Field { object: Box::new(left), name, span })
        }
    }

    /// Parses the pattern of a match arm: an expression.
    pub fn parse_pattern(&mut self) -> (r: Result<Expression, ParseError>)
        requires
            old(self).wf(),
        ensures
            final(self).reads_on_from(*old(self)),
            r is Ok ==> final(self).moved_past(*old(self)),
            r is Ok ==> final(self).struct_literals_allowed() == old(self).struct_literals_allowed(),
            gives_expr(
                r,
                final(self).position(),
                p_expr(
                    old(self).tokens(),
                    old(self).position(),
                    Precedence::Lowest,
                    old(self).nesting(),
                    old(self).struct_literals_allowed(),
                ),
            ),
        decreases old(self).remaining(), 17nat,
    {
        self.parse_expression(Precedence::Lowest)
    }

    /// Parses the call arguments after `(`, separated by commas; the cursor is
    /// on `(` and ends on `)`.
    pub fn parse_call_args(&mut self) -> (r: Result<Vec<Expression>, ParseError>)
        requires
            old(self).wf(),
            old(self).current().token is LeftParen,
        ensures
            final(self).reads_on_from(*old(self)),
            r is Ok ==> final(self).moved_past(*old(self)),
            r is Ok ==> final(self).current().token is RightParen,
            r is Ok ==> final(self).struct_literals_allowed() == old(self).struct_literals_allowed(),
            gives_exprs(
                r,
                final(self).position(),
                p_call_args(
                    old(self).tokens(),
                    old(self).position(),
                    old(self).nesting(),
                    old(self).struct_literals_allowed(),
                ),
            ),
        decreases old(self).remaining(), 10nat,
    {
        let ghost ts = self.tokens@;
        let ghost p0 = self.pos as int;
        let ghost d = self.depth as int;
        let ghost a = self.allowed_struct_literal;
        self.next_token();
        let mut args: Vec<Expression> = Vec::new();
        assert(exprs_v(args@) =~= Seq::<ExprV>::empty());
        while !matches!(self.current_token.token, Token::RightParen)
            invariant
                self.reads_on_from(*old(self)),
                self.pos > old(self).pos,
                ts == old(self).tokens(),
                p0 == old(self).position(),
                d == old(self).nesting(),
                a == old(self).struct_literals_allowed(),
                self.allowed_struct_literal == a,
                p_args(ts, self.pos as int, d, a, exprs_v(args@)) == p_call_args(ts, p0, d, a),
            decreases self.tokens@.len() - self.pos,
        {
            let e = self.parse_expression(Precedence::Lowest)?;
            let ghost before = exprs_v(args@);
            let ghost ev = expr_v(e);
            args.push(e);
            assert(exprs_v(args@) =~= before.push(ev));
            self.next_token();
            if matches!(self.current_token.token, Token::Comma) {
                self.next_token();
            }
        }
        Ok(args)
    }

    /// Parses `fun(params) [return type] { body }` as a value.
    pub fn parse_lambda(&mut self) -> (r: Result<Expression, ParseError>)
        requires
            old(self).wf(),
        ensures
            final(self).reads_on_from(*old(self)),
            r is Ok ==> final(self).moved_past(*old(self)),
            r is Ok ==> final(self).struct_literals_allowed() == old(self).struct_literals_allowed(),
            gives_expr(
                r,
                final(self).position(),
                p_lambda(
                    old(self).tokens(),
                    old(self).position(),
                    old(self).nesting(),
                    old(self).struct_literals_allowed(),
                ),
            ),
        decreases old(self).remaining(), 14nat,
    {
        let start_span = self.current_token.span;
        self.expect(Token::Fun)?;
        let (params, return_type) = self.parse_signature()?;
        let body = self.parse_block()?;
        let r = Expression::Lambda { params, return_type, body, span: start_span };
        assert(expr_v(r)->Lambda_body =~= stmts_v(body@));
        Ok(r)
    }

    /// Parses `:` or `..` and the range's end after its start `left`; the
    /// cursor is on `:` (exclusive: `1:10` is 1 to 9) or `..` (inclusive:
    /// `1..10` is 1 to 10). The expression after the operator is the end, so a
    /// range the parser reads always has one: `a[1:]` is refused at the `]`.
    pub fn parse_infix_range(&mut self, left: Expression) -> (r: Result<Expression, ParseError>)
        requires
            old(self).wf(),
            old(self).current().token is Colon || old(self).current().token is DoubleDot,
        ensures
            final(self).reads_on_from(*old(self)),
            r is Ok ==> final(self).moved_past(*old(self)),
            r is Ok ==> final(self).struct_literals_allowed() == old(self).struct_literals_allowed(),
            gives_expr(
                r,
                final(self).position(),
                p_range(
                    old(self).tokens(),
                    old(self).position(),
                    old(self).nesting(),
                    old(self).struct_literals_allowed(),
                    expr_v(left),
                ),
            ),
        decreases old(self).remaining(), 10nat,
    {
        let start_span = self.current_token.span;
        let range_kind = if matches!(self.current_token.token, Token::Colon) {
            RangeKind::Exclusive
        } else {
            RangeKind::Inclusive
        };
        self.next_token();
        let end = self.parse_expression(Precedence::Range)?;
        Ok(
            Expression::Range {
                start: Some(Box::new(left)),
                end: Some(Box::new(end)),
                range_kind,
                span: start_span,
            },
        )
    }

    /// Parses `name: type` pairs separated by commas up to `)`; the cursor ends
    /// on `)`. Every parameter carries the span of the token the list starts at.
    pub fn parse_fun_params(&mut self) -> (r: Result<Vec<FunParam>, ParseError>)
        requires
            old(self).wf(),
        ensures
            final(self).reads_on_from(*old(self)),
            final(self).struct_literals_allowed() == old(self).struct_literals_allowed(),
            r is Ok ==> final(self).current().token is RightParen,
            r matches Ok(ps) ==> forall|i: int|
                0 <= i < ps@.len() ==> (#[trigger] ps@[i]).span == old(self).current().span,
            r matches Ok(ps) ==> (ps@.len() == 0 <==> final(self).position() == old(self).position()),
            gives_params(r, final(self).position(), p_fun_params(old(self).tokens(), old(self).position())),
    {
        let ghost ts = self.tokens@;
        let ghost p0 = self.pos as int;
        let start_span = self.current_token.span;
        let mut params: Vec<FunParam> = Vec::new();
        assert(params_v(params@) =~= Seq::<crate::parser::tree::ParamV>::empty());
        while !matches!(self.current_token.token, Token::RightParen)
            invariant
                self.reads_on_from(*old(self)),
                ts == old(self).tokens(),
                p0 == old(self).position(),
                p_params(ts, self.pos as int, start_span, params_v(params@)) == p_fun_params(ts, p0),
                self.allowed_struct_literal == old(self).struct_literals_allowed(),
                start_span == old(self).current().span,
                forall|i: int| 0 <= i < params@.len() ==> (#[trigger] params@[i]).span == start_span,
                params@.len() == 0 <==> self.pos == old(self).position(),
            decreases self.tokens@.len() - self.pos,
        {
            let param_name = match &self.current_token.token {
                Token::Identifier(name) => name.clone(),
                _ => {
                    return Err(self.unexpected(&self.current_token));
                },
            };
            self.next_token();
            self.expect(Token::Colon)?;
            let param_type = self.parse_type()?;
            let ghost before = params_v(params@);
            let fp = FunParam { name: param_name, param_type, span: start_span };
            let ghost fv = param_v(fp);
            params.push(fp);
            assert(params_v(params@) =~= before.push(fv));
            if matches!(self.current_token.token, Token::Comma) {
                self.expect(Token::Comma)?;
            } else if !matches!(self.current_token.token, Token::RightParen) {
                return Err(self.unexpected(&self.current_token));
            }
        }
        Ok(params)
    }

    /// Moves past line breaks and commas between match arms.
    fn skip_arm_separators(&mut self)
        requires
            old(self).wf(),
        ensures
            final(self).reads_on_from(*old(self)),
            final(self).struct_literals_allowed() == old(self).struct_literals_allowed(),
            !(final(self).current().token is Newline),
            !(final(self).current().token is Comma),
            forall|i: int|
                old(self).position() <= i < final(self).position() ==> {
                    ||| (#[trigger] final(self).tokens()[i]).token is Newline
                    ||| final(self).tokens()[i].token is Comma
                },
            final(self).position() == skip_seps(old(self).tokens(), old(self).position()),
    {
        while matches!(self.current_token.token, Token::Newline | Token::Comma)
            invariant
                self.reads_on_from(*old(self)),
                skip_seps(self.tokens@, self.pos as int) == skip_seps(old(self).tokens(), old(self).position()),
                self.allowed_struct_literal == old(self).struct_literals_allowed(),
                forall|i: int|
                    old(self).position() <= i < self.pos ==> {
                        ||| (#[trigger] self.tokens@[i]).token is Newline
                        ||| self.tokens@[i].token is Comma
                    },
            decreases self.tokens@.len() - self.pos,
        {
            self.next_token();
        }
    }
}


/// The primitive type that a name stands for, if any.
pub open spec fn spec_primitive_named(name: Seq<char>) -> Option<PrimitiveType> {
    if name == "int"@ {
        Some(PrimitiveType::Int)
    } else if name == "float"@ {
        Some(PrimitiveType::Float)
    } else if name == "bool"@ {
        Some(PrimitiveType::Bool)
    } else if name == "string"@ {
        Some(PrimitiveType::String)
    } else {
        None
    }
}

/// The primitive type that a name stands for: `int`, `float`, `bool`, `string`.
pub fn primitive_named(name: &String) -> (r: Option<PrimitiveType>)
    ensures
        r == spec_primitive_named(name@),
{
    if *name == String::from_str("int") {
        Some(PrimitiveType::Int)
    } else if *name == String::from_str("float") {
        Some(PrimitiveType::Float)
    } else if *name == String::from_str("bool") {
        Some(PrimitiveType::Bool)
    } else if *name == String::from_str("string") {
        Some(PrimitiveType::String)
    } else {
        None
    }
}

} // verus!
