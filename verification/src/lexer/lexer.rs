//! Turning source text into tokens.
use vstd::prelude::*;
use vstd::string::StringExecFns;
use crate::lexer::span::{Position, Span, SpannedToken};
use crate::lexer::token::Token;
use crate::text::push_char;
use crate::lexer::scan::{
    Cursor, TokV, digits_value, is_digit, keyword_v, lex_all,
    lex_number, lex_string, lex_symbol, lex_token, lex_word, position_of, skip_blanks,
    skip_comment, skip_digits, skip_word, step, tok_v, };

verus! {

/// Reads source text one token at a time.
pub struct Lexer {
    input: Vec<char>,
    pos: usize,
    line: usize,
    col: usize,
}

proof fn lemma_digits_value_nonneg(s: Seq<char>)
    requires
        forall|i: int| 0 <= i < s.len() ==> is_digit(#[trigger] s[i]),
    ensures
        digits_value(s) >= 0,
    decreases s.len(),
{
    if s.len() > 0 {
        lemma_digits_value_nonneg(s.drop_last());
    }
}

impl Lexer {
    /// The characters being read.
    pub closed spec fn input(&self) -> Seq<char> {
        self.input@
    }

    /// How many characters have been read.
    pub closed spec fn offset(&self) -> int {
        self.pos as int
    }

    /// Where reading stands.
    pub closed spec fn cursor(&self) -> Cursor {
        Cursor { pos: self.pos as int, line: self.line, col: self.col }
    }

    pub closed spec fn wf(&self) -> bool {
        &&& self.pos <= self.input@.len()
        &&& self.line >= 1
        &&& self.col >= 1
    }

    /// What a well-formed lexer is: its cursor is within the input, on a line
    /// and column counted from 1; the offset is the cursor's position.
    pub proof fn lemma_wf(&self)
        ensures
            self.offset() == self.cursor().pos,
            self.wf() <==> {
                &&& 0 <= self.cursor().pos <= self.input().len()
                &&& self.cursor().line >= 1
                &&& self.cursor().col >= 1
            },
    {
    }

    /// A lexer at the start of `input`: line 1, column 1.
    pub fn new(input: &str) -> (l: Lexer)
        ensures
            l.wf(),
            l.input() == input@,
            l.offset() == 0,
            l.cursor() == (Cursor { pos: 0, line: 1, col: 1 }),
    {
        let mut chars: Vec<char> = Vec::new();
        for c in it: input.chars()
            invariant
                chars@ == it.seq().take(it.index() as int),
        {
            chars.push(c);
        }
        Lexer { input: chars, pos: 0, line: 1, col: 1 }
    }

    fn at(&self, i: usize) -> (c: Option<char>)
        ensures
            c is Some ==> i < self.input.len(),
            c == (if i < self.input@.len() { Some(self.input@[i as int]) } else { None::<char> }),
    {
        if i < self.input.len() {
            Some(self.input[i])
        } else {
            None
        }
    }

    fn here(&self) -> (p: Position)
        ensures
            p == position_of(self.cursor()),
    {
        Position::new(self.line, self.col)
    }

    /// Moves past one character.
    fn bump(&mut self)
        requires
            old(self).wf(),
            old(self).pos < old(self).input@.len(),
        ensures
            final(self).wf(),
            final(self).input == old(self).input,
            final(self).pos == old(self).pos + 1,
            final(self).cursor() == step(old(self).input@, old(self).cursor()),
    {
        let n = self.input.len();
        if self.input[self.pos] == '\n' {
            self.line = self.line.saturating_add(1);
            self.col = 1;
        } else {
            self.col = self.col.saturating_add(1);
        }
        self.pos = self.pos + 1;
    }

    /// Skips blanks and `//` comments, stopping at a line break.
    fn skip_blanks(&mut self)
        requires
            old(self).wf(),
        ensures
            final(self).wf(),
            final(self).input == old(self).input,
            final(self).pos >= old(self).pos,
            final(self).cursor() == skip_blanks(old(self).input@, old(self).cursor()),
    {
        loop
            invariant
                self.wf(),
                self.input == old(self).input,
                self.pos >= old(self).pos,
                skip_blanks(self.input@, self.cursor()) == skip_blanks(old(self).input@, old(self).cursor()),
            ensures
                self.wf(),
                self.input == old(self).input,
                self.pos >= old(self).pos,
                self.cursor() == skip_blanks(old(self).input@, old(self).cursor()),
            decreases self.input@.len() - self.pos,
        {
            match self.at(self.pos) {
                Some(c) => {
                    if c == ' ' || c == '\t' || c == '\r' {
                        self.bump();
                    } else if c == '/' && self.at(self.pos + 1) == Some('/') {
                        let ghost before = self.cursor();
                        self.bump();
                        while self.pos < self.input.len() && self.input[self.pos] != '\n'
                            invariant
                                self.pos > before.pos,
                                self.wf(),
                                self.input == old(self).input,
                                self.pos >= old(self).pos,
                                skip_comment(self.input@, self.cursor()) == skip_comment(
                                    self.input@,
                                    step(self.input@, before),
                                ),
                            decreases self.input@.len() - self.pos,
                        {
                            self.bump();
                        }
                    } else {
                        return;
                    }
                },
                None => {
                    return;
                },
            }
        }
    }

    /// Reads the token `long` when the next character is `second`, else `short`;
    /// the first character has been read already.
    fn one_or_two(&mut self, second: char, long: Token, short: Token) -> (t: Token)
        requires
            old(self).wf(),
        ensures
            final(self).wf(),
            final(self).input == old(self).input,
            final(self).pos >= old(self).pos,
            (TokV::Other(t), final(self).cursor()) == crate::lexer::scan::one_or_two(
                old(self).input@,
                old(self).cursor(),
                second,
                long,
                short,
            ),
    {
        if self.at(self.pos) == Some(second) {
            self.bump();
            long
        } else {
            short
        }
    }

    /// Reads a number whose first digit is at the current position.
    fn read_number(&mut self) -> (t: Token)
        requires
            old(self).wf(),
            old(self).pos < old(self).input@.len(),
            is_digit(old(self).input@[old(self).pos as int]),
        ensures
            final(self).wf(),
            final(self).input == old(self).input,
            final(self).pos > old(self).pos,
            !(t is Eof),
            (tok_v(t), final(self).cursor()) == lex_number(old(self).input@, old(self).cursor()),
    {
        let ghost input = self.input@;
        let ghost c0 = self.cursor();
        let first = self.input[self.pos];
        let mut value: isize = 0;
        let mut overflow = false;
        let mut text = String::new();
        while self.pos < self.input.len() && '0' <= self.input[self.pos] && self.input[self.pos]
            <= '9'
            invariant
                self.wf(),
                self.input == old(self).input,
                input == old(self).input@,
                c0 == old(self).cursor(),
                self.pos >= old(self).pos,
                self.pos == old(self).pos ==> self.input@[self.pos as int] == first,
                first == input[c0.pos],
                skip_digits(input, self.cursor()) == skip_digits(input, c0),
                text@ == input.subrange(c0.pos, self.pos as int),
                forall|i: int| c0.pos <= i < self.pos ==> is_digit(#[trigger] input[i]),
                !overflow ==> value == digits_value(text@) && digits_value(text@) <= isize::MAX,
                overflow ==> digits_value(text@) > isize::MAX,
            decreases self.input@.len() - self.pos,
        {
            let c = self.input[self.pos];
            let d = (c as u32 - '0' as u32) as isize;
            let ghost before = text@;
            proof {
                lemma_digits_value_nonneg(before);
                assert(input.subrange(c0.pos, self.pos + 1).drop_last() =~= before);
            }
            if !overflow {
                match value.checked_mul(10) {
                    Some(v10) => match v10.checked_add(d) {
                        Some(v) => {
                            value = v;
                        },
                        None => {
                            overflow = true;
                        },
                    },
                    None => {
                        overflow = true;
                    },
                }
            }
            push_char(&mut text, c);
            self.bump();
            assert(text@ =~= input.subrange(c0.pos, self.pos as int));
        }
        let e = self.pos;
        let is_float = match self.at(self.pos) {
            Some('.') => match self.at(self.pos + 1) {
                Some(d) => '0' <= d && d <= '9',
                None => false,
            },
            _ => false,
        };
        if is_float {
            push_char(&mut text, '.');
            self.bump();
            let ghost f0 = self.cursor();
            let ghost int_part = input.subrange(c0.pos, e as int);
            while self.pos < self.input.len() && '0' <= self.input[self.pos] && self.input[self.pos]
                <= '9'
                invariant
                    self.wf(),
                    self.input == old(self).input,
                    input == old(self).input@,
                    self.pos > old(self).pos,
                    self.pos >= f0.pos,
                    f0.pos == e + 1,
                    c0.pos <= e,
                    int_part == input.subrange(c0.pos, e as int),
                    skip_digits(input, self.cursor()) == skip_digits(input, f0),
                    text@ == int_part + seq!['.'] + input.subrange(f0.pos, self.pos as int),
                decreases self.input@.len() - self.pos,
            {
                let c = self.input[self.pos];
                let ghost before = text@;
                assert(input.subrange(f0.pos, self.pos + 1) =~= input.subrange(f0.pos, self.pos as int).push(c));
                push_char(&mut text, c);
                self.bump();
                assert(text@ =~= int_part + seq!['.'] + input.subrange(f0.pos, self.pos as int));
            }
            Token::Float(text)
        } else if overflow {
            Token::Illegal(first)
        } else {
            Token::Int(value)
        }
    }

    /// Reads a name or keyword whose first character is at the current position.
    fn read_word(&mut self) -> (t: Token)
        requires
            old(self).wf(),
            old(self).pos < old(self).input@.len(),
        ensures
            final(self).wf(),
            final(self).input == old(self).input,
            final(self).pos > old(self).pos,
            !(t is Eof),
            (tok_v(t), final(self).cursor()) == lex_word(old(self).input@, old(self).cursor()),
    {
        let ghost input = self.input@;
        let ghost c0 = self.cursor();
        let mut word = String::new();
        let c0ch = self.input[self.pos];
        push_char(&mut word, c0ch);
        self.bump();
        let ghost w0 = self.cursor();
        while self.pos < self.input.len() && ('a' <= self.input[self.pos] && self.input[self.pos]
            <= 'z' || 'A' <= self.input[self.pos] && self.input[self.pos] <= 'Z' || '0'
            <= self.input[self.pos] && self.input[self.pos] <= '9' || self.input[self.pos] == '_')
            invariant
                self.wf(),
                self.input == old(self).input,
                input == old(self).input@,
                self.pos > old(self).pos,
                c0 == old(self).cursor(),
                self.pos >= c0.pos,
                skip_word(input, self.cursor()) == skip_word(input, w0),
                w0 == step(input, c0),
                word@ == input.subrange(c0.pos, self.pos as int),
            decreases self.input@.len() - self.pos,
        {
            let c = self.input[self.pos];
            assert(input.subrange(c0.pos, self.pos + 1) =~= input.subrange(c0.pos, self.pos as int).push(c));
            push_char(&mut word, c);
            self.bump();
            assert(word@ =~= input.subrange(c0.pos, self.pos as int));
        }
        keyword_or_identifier(word)
    }

    /// Reads a string literal whose opening quote is at the current position.
    fn read_string(&mut self) -> (t: Token)
        requires
            old(self).wf(),
            old(self).pos < old(self).input@.len(),
        ensures
            final(self).wf(),
            final(self).input == old(self).input,
            final(self).pos > old(self).pos,
            !(t is Eof),
            (tok_v(t), final(self).cursor()) == lex_string(
                old(self).input@,
                step(old(self).input@, old(self).cursor()),
                Seq::empty(),
            ),
    {
        let ghost input = self.input@;
        self.bump();
        let ghost s0 = self.cursor();
        let mut text = String::new();
        loop
            invariant
                self.wf(),
                self.input == old(self).input,
                input == old(self).input@,
                self.pos > old(self).pos,
                s0 == step(input, old(self).cursor()),
                lex_string(input, self.cursor(), text@) == lex_string(input, s0, Seq::empty()),
            decreases self.input@.len() - self.pos,
        {
            match self.at(self.pos) {
                None => {
                    return Token::Illegal('"');
                },
                Some(c) => {
                    self.bump();
                    if c == '"' {
                        return Token::String(text);
                    } else if c == '\\' {
                        match self.at(self.pos) {
                            None => {
                                return Token::Illegal('"');
                            },
                            Some(e) => {
                                self.bump();
                                let r = if e == 'n' {
                                    '\n'
                                } else if e == 't' {
                                    '\t'
                                } else if e == 'r' {
                                    '\r'
                                } else if e == '0' {
                                    '\0'
                                } else {
                                    e
                                };
                                push_char(&mut text, r);
                            },
                        }
                    } else {
                        push_char(&mut text, c);
                    }
                },
            }
        }
    }

    /// Reads the next token. At the end of the input it gives `Eof`, and keeps
    /// giving `Eof` when called again.
    pub fn next_token(&mut self) -> (t: SpannedToken)
        requires
            old(self).wf(),
        ensures
            final(self).wf(),
            final(self).input() == old(self).input(),
            (t.token is Eof) ==> final(self).offset() == final(self).input().len(),
            !(t.token is Eof) ==> final(self).offset() > old(self).offset(),
            final(self).offset() >= old(self).offset(),
            (tok_v(t.token), t.span, final(self).cursor()) == lex_token(old(self).input(), old(self).cursor()),
    {
        self.skip_blanks();
        let start = self.here();
        let c = match self.at(self.pos) {
            None => {
                return SpannedToken { token: Token::Eof, span: Span::new(start, start) };
            },
            Some(c) => c,
        };
        let token = if '0' <= c && c <= '9' {
            self.read_number()
        } else if 'a' <= c && c <= 'z' || 'A' <= c && c <= 'Z' || c == '_' {
            self.read_word()
        } else if c == '"' {
            self.read_string()
        } else {
            self.bump();
            self.read_symbol(c)
        };
        let end = self.here();
        SpannedToken { token, span: Span::new(start, end) }
    }

    /// Reads an operator or punctuation whose first character `c` has been read.
    fn read_symbol(&mut self, c: char) -> (t: Token)
        requires
            old(self).wf(),
        ensures
            final(self).wf(),
            final(self).input == old(self).input,
            final(self).pos >= old(self).pos,
            !(t is Eof),
            (tok_v(t), final(self).cursor()) == lex_symbol(old(self).input@, c, old(self).cursor()),
    {
        if c == '\n' {
            Token::Newline
        } else if c == '=' {
            if self.at(self.pos) == Some('=') {
                self.bump();
                Token::Equals
            } else {
                self.one_or_two('>', Token::FatArrow, Token::Assign)
            }
        } else if c == '!' {
            self.one_or_two('=', Token::NotEquals, Token::LogicNot)
        } else if c == '<' {
            if self.at(self.pos) == Some('=') {
                self.bump();
                Token::LessOrEquals
            } else {
                self.one_or_two('<', Token::LeftShift, Token::Less)
            }
        } else if c == '>' {
            if self.at(self.pos) == Some('=') {
                self.bump();
                Token::GreaterOrEquals
            } else {
                self.one_or_two('>', Token::RightShift, Token::Greater)
            }
        } else if c == '+' {
            if self.at(self.pos) == Some('+') {
                self.bump();
                Token::Increment
            } else {
                self.one_or_two('=', Token::AddAndAssign, Token::Add)
            }
        } else if c == '-' {
            if self.at(self.pos) == Some('-') {
                self.bump();
                Token::Decrement
            } else {
                self.one_or_two('=', Token::SubAndAssign, Token::Subtract)
            }
        } else if c == '*' {
            if self.at(self.pos) == Some('*') {
                self.bump();
                Token::Power
            } else {
                self.one_or_two('=', Token::MulAndAssign, Token::Multiply)
            }
        } else if c == '/' {
            self.one_or_two('=', Token::DivAndAssign, Token::Divide)
        } else if c == '%' {
            self.one_or_two('=', Token::ModAndAssign, Token::Modulus)
        } else if c == '&' {
            self.one_or_two('&', Token::LogicAnd, Token::BitAnd)
        } else if c == '|' {
            self.one_or_two('|', Token::LogicOr, Token::Pipe)
        } else if c == '#' {
            Token::BitOr
        } else if c == '^' {
            Token::BitXOR
        } else if c == '~' {
            self.one_or_two('>', Token::Sprout, Token::BitNot)
        } else if c == '.' {
            self.one_or_two('.', Token::DoubleDot, Token::Dot)
        } else if c == ':' {
            Token::Colon
        } else if c == ',' {
            Token::Comma
        } else if c == ';' {
            Token::Semicolon
        } else if c == '(' {
            Token::LeftParen
        } else if c == ')' {
            Token::RightParen
        } else if c == '{' {
            Token::LeftBrace
        } else if c == '}' {
            Token::RightBrace
        } else if c == '[' {
            Token::LeftBracket
        } else if c == ']' {
            Token::RightBracket
        } else {
            Token::Illegal(c)
        }
    }

    /// Reads every remaining token: the result ends with the one `Eof`.
    pub fn tokenize(&mut self) -> (ts: Vec<SpannedToken>)
        requires
            old(self).wf(),
        ensures
            final(self).wf(),
            ts@.len() >= 1,
            ts@.last().token is Eof,
            forall|i: int| 0 <= i < ts@.len() - 1 ==> !((#[trigger] ts@[i]).token is Eof),
            Seq::new(ts@.len(), |i: int| (tok_v(ts@[i].token), ts@[i].span)) == lex_all(
                old(self).input(),
                old(self).cursor(),
            ),
    {
        let ghost input = self.input@;
        let mut ts: Vec<SpannedToken> = Vec::new();
        loop
            invariant
                self.wf(),
                input == old(self).input(),
                self.input@ == input,
                forall|i: int| 0 <= i < ts@.len() ==> !((#[trigger] ts@[i]).token is Eof),
                Seq::new(ts@.len(), |i: int| (tok_v(ts@[i].token), ts@[i].span)) + lex_all(
                    input,
                    self.cursor(),
                ) == lex_all(input, old(self).cursor()),
            decreases self.input@.len() - self.pos,
        {
            let ghost c = self.cursor();
            let ghost before = Seq::new(ts@.len(), |i: int| (tok_v(ts@[i].token), ts@[i].span));
            let t = self.next_token();
            let ghost item = (tok_v(t.token), t.span);
            if let Token::Eof = t.token {
                ts.push(t);
                assert(Seq::new(ts@.len(), |i: int| (tok_v(ts@[i].token), ts@[i].span)) =~= before.push(
                    item,
                ));
                assert(lex_all(input, c) == seq![item]);
                assert(before + seq![item] =~= before.push(item));
                return ts;
            }
            ts.push(t);
            assert(Seq::new(ts@.len(), |i: int| (tok_v(ts@[i].token), ts@[i].span)) =~= before.push(
                item,
            ));
            assert(lex_all(input, c) == seq![item] + lex_all(input, self.cursor()));
            assert(before.push(item) + lex_all(input, self.cursor()) =~= before + (seq![item]
                + lex_all(input, self.cursor())));
        }
    }
}

/// The keyword, truth value or identifier that a name spells.
fn keyword_or_identifier(word: String) -> (t: Token)
    ensures
        !(t is Eof),
        tok_v(t) == keyword_v(word@),
{
    proof {
        reveal_strlit("let");
        reveal_strlit("var");
        reveal_strlit("const");
        reveal_strlit("fun");
        reveal_strlit("return");
        reveal_strlit("if");
        reveal_strlit("else");
        reveal_strlit("for");
        reveal_strlit("in");
        reveal_strlit("match");
        reveal_strlit("struct");
        reveal_strlit("true");
        reveal_strlit("false");
    }
    if word == String::from_str("let") {
        Token::Let
    } else if word == String::from_str("var") {
        Token::Var
    } else if word == String::from_str("const") {
        Token::Const
    } else if word == String::from_str("fun") {
        Token::Fun
    } else if word == String::from_str("return") {
        Token::Return
    } else if word == String::from_str("if") {
        Token::If
    } else if word == String::from_str("else") {
        Token::Else
    } else if word == String::from_str("for") {
        Token::For
    } else if word == String::from_str("in") {
        Token::In
    } else if word == String::from_str("match") {
        Token::Match
    } else if word == String::from_str("struct") {
        Token::Struct
    } else if word == String::from_str("true") {
        Token::Bool(true)
    } else if word == String::from_str("false") {
        Token::Bool(false)
    } else {
        Token::Identifier(word)
    }
}

} // verus!
