//! What the lexer reads, stated as functions of the source characters and of
//! where reading stands.
use vstd::prelude::*;
use crate::lexer::span::{Position, Span};
use crate::lexer::token::Token;

verus! {

/// A token with its texts as character sequences.
pub enum TokV {
    Float(Seq<char>),
    Ident(Seq<char>),
    Str(Seq<char>),
    Other(Token),
}

pub open spec fn tok_v(t: Token) -> TokV {
    match t {
        Token::Float(s) => TokV::Float(s@),
        Token::Identifier(s) => TokV::Ident(s@),
        Token::String(s) => TokV::Str(s@),
        other => TokV::Other(other),
    }
}

/// Where reading stands: the index of the next character, and its line and
/// column (both counted from 1).
pub struct Cursor {
    pub pos: int,
    pub line: usize,
    pub col: usize,
}

/// One more, or the same at the largest `usize`.
pub open spec fn sat_inc(x: usize) -> usize {
    if x < usize::MAX {
        (x + 1) as usize
    } else {
        x
    }
}

/// Past one character: a line break starts the next line at column 1.
pub open spec fn step(input: Seq<char>, c: Cursor) -> Cursor {
    if input[c.pos] == '\n' {
        Cursor { pos: c.pos + 1, line: sat_inc(c.line), col: 1 }
    } else {
        Cursor { pos: c.pos + 1, line: c.line, col: sat_inc(c.col) }
    }
}

pub open spec fn is_ident_start(c: char) -> bool {
    ('a' <= c && c <= 'z') || ('A' <= c && c <= 'Z') || c == '_'
}

pub open spec fn is_digit(c: char) -> bool {
    '0' <= c && c <= '9'
}

/// Characters that may continue a name.
pub open spec fn is_ident_char(c: char) -> bool {
    is_ident_start(c) || is_digit(c)
}

/// Blanks that separate tokens without being one (a line break is a token).
pub open spec fn is_blank(c: char) -> bool {
    c == ' ' || c == '\t' || c == '\r'
}

/// The value of a string of decimal digits.
pub open spec fn digits_value(s: Seq<char>) -> int
    decreases s.len(),
{
    if s.len() == 0 {
        0
    } else {
        digits_value(s.drop_last()) * 10 + (s.last() as int - '0' as int)
    }
}

/// Past the characters up to the next line break.
pub open spec fn skip_comment(input: Seq<char>, c: Cursor) -> Cursor
    decreases input.len() - c.pos,
{
    if 0 <= c.pos < input.len() && input[c.pos] != '\n' {
        skip_comment(input, step(input, c))
    } else {
        c
    }
}

/// Past blanks and `//` comments.
pub open spec fn skip_blanks(input: Seq<char>, c: Cursor) -> Cursor
    decreases input.len() - c.pos,
{
    if 0 <= c.pos < input.len() {
        let ch = input[c.pos];
        if is_blank(ch) {
            skip_blanks(input, step(input, c))
        } else if ch == '/' && c.pos + 1 < input.len() && input[c.pos + 1] == '/' {
            let c2 = skip_comment(input, step(input, c));
            if c.pos < c2.pos <= input.len() {
                skip_blanks(input, c2)
            } else {
                c
            }
        } else {
            c
        }
    } else {
        c
    }
}

/// Past decimal digits.
pub open spec fn skip_digits(input: Seq<char>, c: Cursor) -> Cursor
    decreases input.len() - c.pos,
{
    if 0 <= c.pos < input.len() && is_digit(input[c.pos]) {
        skip_digits(input, step(input, c))
    } else {
        c
    }
}

/// Past the characters that may continue a name.
pub open spec fn skip_word(input: Seq<char>, c: Cursor) -> Cursor
    decreases input.len() - c.pos,
{
    if 0 <= c.pos < input.len() && is_ident_char(input[c.pos]) {
        skip_word(input, step(input, c))
    } else {
        c
    }
}

/// A number: digits, then `.` and more digits for a float, kept as written.
/// An integer too large for `isize` is an illegal token carrying its first
/// digit.
pub open spec fn lex_number(input: Seq<char>, c: Cursor) -> (TokV, Cursor) {
    let e = skip_digits(input, c);
    let digits = input.subrange(c.pos, e.pos);
    if e.pos + 1 < input.len() && input[e.pos] == '.' && is_digit(input[e.pos + 1]) {
        let f = skip_digits(input, step(input, e));
        (TokV::Float(digits + seq!['.'] + input.subrange(e.pos + 1, f.pos)), f)
    } else if digits_value(digits) > isize::MAX {
        (TokV::Other(Token::Illegal(input[c.pos])), e)
    } else {
        (TokV::Other(Token::Int(digits_value(digits) as isize)), e)
    }
}

/// The keyword or truth value a word spells, else a name.
pub open spec fn keyword_v(w: Seq<char>) -> TokV {
    if w == "let"@ {
        TokV::Other(Token::Let)
    } else if w == "var"@ {
        TokV::Other(Token::Var)
    } else if w == "const"@ {
        TokV::Other(Token::Const)
    } else if w == "fun"@ {
        TokV::Other(Token::Fun)
    } else if w == "return"@ {
        TokV::Other(Token::Return)
    } else if w == "if"@ {
        TokV::Other(Token::If)
    } else if w == "else"@ {
        TokV::Other(Token::Else)
    } else if w == "for"@ {
        TokV::Other(Token::For)
    } else if w == "in"@ {
        TokV::Other(Token::In)
    } else if w == "match"@ {
        TokV::Other(Token::Match)
    } else if w == "struct"@ {
        TokV::Other(Token::Struct)
    } else if w == "true"@ {
        TokV::Other(Token::Bool(true))
    } else if w == "false"@ {
        TokV::Other(Token::Bool(false))
    } else {
        TokV::Ident(w)
    }
}

/// A name or keyword: its first character and those that may continue it.
pub open spec fn lex_word(input: Seq<char>, c: Cursor) -> (TokV, Cursor) {
    let e = skip_word(input, step(input, c));
    (keyword_v(input.subrange(c.pos, e.pos)), e)
}

/// The character an escape `\e` stands for.
pub open spec fn unescape(e: char) -> char {
    if e == 'n' {
        '\n'
    } else if e == 't' {
        '\t'
    } else if e == 'r' {
        '\r'
    } else if e == '0' {
        '\0'
    } else {
        e
    }
}

/// The rest of a string literal after its opening quote, `acc` read so far;
/// an unterminated literal is an illegal `"`.
pub open spec fn lex_string(input: Seq<char>, c: Cursor, acc: Seq<char>) -> (TokV, Cursor)
    decreases input.len() - c.pos,
{
    if !(0 <= c.pos < input.len()) {
        (TokV::Other(Token::Illegal('"')), c)
    } else {
        let ch = input[c.pos];
        let c1 = step(input, c);
        if ch == '"' {
            (TokV::Str(acc), c1)
        } else if ch == '\\' {
            if c1.pos >= input.len() {
                (TokV::Other(Token::Illegal('"')), c1)
            } else {
                lex_string(input, step(input, c1), acc.push(unescape(input[c1.pos])))
            }
        } else {
            lex_string(input, c1, acc.push(ch))
        }
    }
}

/// Whether the character at `c` is `ch`.
pub open spec fn next_is(input: Seq<char>, c: Cursor, ch: char) -> bool {
    0 <= c.pos < input.len() && input[c.pos] == ch
}

/// `long` with the character at `c` when it is `second`, else `short`.
pub open spec fn one_or_two(input: Seq<char>, c: Cursor, second: char, long: Token, short: Token) -> (
    TokV,
    Cursor,
) {
    if next_is(input, c, second) {
        (TokV::Other(long), step(input, c))
    } else {
        (TokV::Other(short), c)
    }
}

/// An operator or punctuation whose first character `ch` has been read.
pub open spec fn lex_symbol(input: Seq<char>, ch: char, c: Cursor) -> (TokV, Cursor) {
    if ch == '\n' {
        (TokV::Other(Token::Newline), c)
    } else if ch == '=' {
        if next_is(input, c, '=') {
            (TokV::Other(Token::Equals), step(input, c))
        } else {
            one_or_two(input, c, '>', Token::FatArrow, Token::Assign)
        }
    } else if ch == '!' {
        one_or_two(input, c, '=', Token::NotEquals, Token::LogicNot)
    } else if ch == '<' {
        if next_is(input, c, '=') {
            (TokV::Other(Token::LessOrEquals), step(input, c))
        } else {
            one_or_two(input, c, '<', Token::LeftShift, Token::Less)
        }
    } else if ch == '>' {
        if next_is(input, c, '=') {
            (TokV::Other(Token::GreaterOrEquals), step(input, c))
        } else {
            one_or_two(input, c, '>', Token::RightShift, Token::Greater)
        }
    } else if ch == '+' {
        if next_is(input, c, '+') {
            (TokV::Other(Token::Increment), step(input, c))
        } else {
            one_or_two(input, c, '=', Token::AddAndAssign, Token::Add)
        }
    } else if ch == '-' {
        if next_is(input, c, '-') {
            (TokV::Other(Token::Decrement), step(input, c))
        } else {
            one_or_two(input, c, '=', Token::SubAndAssign, Token::Subtract)
        }
    } else if ch == '*' {
        if next_is(input, c, '*') {
            (TokV::Other(Token::Power), step(input, c))
        } else {
            one_or_two(input, c, '=', Token::MulAndAssign, Token::Multiply)
        }
    } else if ch == '/' {
        one_or_two(input, c, '=', Token::DivAndAssign, Token::Divide)
    } else if ch == '%' {
        one_or_two(input, c, '=', Token::ModAndAssign, Token::Modulus)
    } else if ch == '&' {
        one_or_two(input, c, '&', Token::LogicAnd, Token::BitAnd)
    } else if ch == '|' {
        one_or_two(input, c, '|', Token::LogicOr, Token::Pipe)
    } else if ch == '#' {
        (TokV::Other(Token::BitOr), c)
    } else if ch == '^' {
        (TokV::Other(Token::BitXOR), c)
    } else if ch == '~' {
        one_or_two(input, c, '>', Token::Sprout, Token::BitNot)
    } else if ch == '.' {
        one_or_two(input, c, '.', Token::DoubleDot, Token::Dot)
    } else if ch == ':' {
        (TokV::Other(Token::Colon), c)
    } else if ch == ',' {
        (TokV::Other(Token::Comma), c)
    } else if ch == ';' {
        (TokV::Other(Token::Semicolon), c)
    } else if ch == '(' {
        (TokV::Other(Token::LeftParen), c)
    } else if ch == ')' {
        (TokV::Other(Token::RightParen), c)
    } else if ch == '{' {
        (TokV::Other(Token::LeftBrace), c)
    } else if ch == '}' {
        (TokV::Other(Token::RightBrace), c)
    } else if ch == '[' {
        (TokV::Other(Token::LeftBracket), c)
    } else if ch == ']' {
        (TokV::Other(Token::RightBracket), c)
    } else {
        (TokV::Other(Token::Illegal(ch)), c)
    }
}

/// The position a cursor stands at.
pub open spec fn position_of(c: Cursor) -> Position {
    Position { line: c.line, col: c.col }
}

/// The next token after blanks and comments, with its span and where reading
/// stands after it; at the end of the input, `Eof` with an empty span.
pub open spec fn lex_token(input: Seq<char>, c: Cursor) -> (TokV, Span, Cursor) {
    let s = skip_blanks(input, c);
    let start = position_of(s);
    if !(0 <= s.pos < input.len()) {
        (TokV::Other(Token::Eof), Span { start, end: start }, s)
    } else {
        let ch = input[s.pos];
        let (t, e) = if is_digit(ch) {
            lex_number(input, s)
        } else if is_ident_start(ch) {
            lex_word(input, s)
        } else if ch == '"' {
            lex_string(input, step(input, s), Seq::empty())
        } else {
            lex_symbol(input, ch, step(input, s))
        };
        (t, Span { start, end: position_of(e) }, e)
    }
}

/// Every token from `c` on, the last one `Eof`.
pub open spec fn lex_all(input: Seq<char>, c: Cursor) -> Seq<(TokV, Span)>
    decreases input.len() - c.pos,
{
    let (t, sp, e) = lex_token(input, c);
    if t == TokV::Other(Token::Eof) {
        seq![(t, sp)]
    } else if c.pos < e.pos <= input.len() {
        seq![(t, sp)] + lex_all(input, e)
    } else {
        seq![(t, sp)]
    }
}

proof fn lemma_string_is_no_eof(input: Seq<char>, c: Cursor, acc: Seq<char>)
    ensures
        lex_string(input, c, acc).0 != TokV::Other(Token::Eof),
    decreases input.len() - c.pos,
{
    if 0 <= c.pos < input.len() {
        let c1 = step(input, c);
        if input[c.pos] == '\\' {
            if c1.pos < input.len() {
                lemma_string_is_no_eof(input, step(input, c1), acc.push(unescape(input[c1.pos])));
            }
        } else if input[c.pos] != '"' {
            lemma_string_is_no_eof(input, c1, acc.push(input[c.pos]));
        }
    }
}

/// Once reading has reached the end, it stays there: the token after `Eof`
/// is `Eof` again, and reading does not move.
pub proof fn law_eof_repeats(input: Seq<char>, c: Cursor)
    requires
        lex_token(input, c).0 == TokV::Other(Token::Eof),
    ensures
        lex_token(input, lex_token(input, c).2).0 == TokV::Other(Token::Eof),
        lex_token(input, lex_token(input, c).2).2 == lex_token(input, c).2,
{
    let s = skip_blanks(input, c);
    if 0 <= s.pos < input.len() {
        let ch = input[s.pos];
        let (t, e) = if is_digit(ch) {
            lex_number(input, s)
        } else if is_ident_start(ch) {
            lex_word(input, s)
        } else if ch == '"' {
            lex_string(input, step(input, s), Seq::empty())
        } else {
            lex_symbol(input, ch, step(input, s))
        };
        lemma_string_is_no_eof(input, step(input, s), Seq::empty());
        assert(t != TokV::Other(Token::Eof));
    }
}

/// A cursor on a counted line and column (both at least 1).
pub open spec fn counted(c: Cursor) -> bool {
    c.line >= 1 && c.col >= 1
}

proof fn lemma_skips_keep_counted(input: Seq<char>, c: Cursor)
    requires
        counted(c),
    ensures
        counted(skip_comment(input, c)),
        counted(skip_blanks(input, c)),
        counted(skip_digits(input, c)),
        counted(skip_word(input, c)),
    decreases input.len() - c.pos,
{
    if 0 <= c.pos < input.len() {
        lemma_skips_keep_counted(input, step(input, c));
        let c2 = skip_comment(input, step(input, c));
        if c.pos < c2.pos <= input.len() {
            lemma_skips_keep_counted(input, c2);
        }
    }
}

proof fn lemma_string_keeps_counted(input: Seq<char>, c: Cursor, acc: Seq<char>)
    requires
        counted(c),
    ensures
        counted(lex_string(input, c, acc).1),
    decreases input.len() - c.pos,
{
    if 0 <= c.pos < input.len() {
        let c1 = step(input, c);
        if input[c.pos] == '\\' {
            if c1.pos < input.len() {
                lemma_string_keeps_counted(input, step(input, c1), acc.push(unescape(input[c1.pos])));
            }
        } else if input[c.pos] != '"' {
            lemma_string_keeps_counted(input, c1, acc.push(input[c.pos]));
        }
    }
}

/// Lines and columns are counted from 1: reading from a counted position,
/// every token starts and ends at a line and column of at least 1, and so
/// does the position after it.
pub proof fn law_positions_counted_from_one(input: Seq<char>, c: Cursor)
    requires
        counted(c),
    ensures
        lex_token(input, c).1.start.line >= 1,
        lex_token(input, c).1.start.col >= 1,
        lex_token(input, c).1.end.line >= 1,
        lex_token(input, c).1.end.col >= 1,
        counted(lex_token(input, c).2),
{
    lemma_skips_keep_counted(input, c);
    let s = skip_blanks(input, c);
    if 0 <= s.pos < input.len() {
        lemma_skips_keep_counted(input, s);
        lemma_skips_keep_counted(input, step(input, s));
        let e = skip_digits(input, s);
        if e.pos < input.len() {
            lemma_skips_keep_counted(input, step(input, e));
        }
        lemma_string_keeps_counted(input, step(input, s), Seq::empty());
        let c1 = step(input, s);
        if 0 <= c1.pos < input.len() {
            assert(counted(step(input, c1)));
        }
    }
}

} // verus!
