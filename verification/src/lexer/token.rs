use vstd::prelude::*;
use vstd::string::StringExecFns;
use crate::text::{int_text, push_char, push_int, push_str};

verus! {

/// Names of the built-in types of the language.
#[derive(Debug, Clone, Copy, PartialEq, Eq, Structural)]
pub enum PrimitiveType {
    Int,
    Float,
    Bool,
    String,
}

/// The tokens of the language.
#[derive(Debug, PartialEq, Eq)]
pub enum Token {
    // literals and names
    Int(isize),
    /// A floating-point literal, kept as the text it was written with.
    Float(String),
    Identifier(String),
    Bool(bool),
    String(String),
    // keywords
    Let,
    Var,
    Const,
    Fun,
    Return,
    If,
    Else,
    For,
    In,
    Match,
    Struct,
    // assignment and comparison
    Assign,
    Equals,
    NotEquals,
    Less,
    Greater,
    LessOrEquals,
    GreaterOrEquals,
    // arithmetic
    Add,
    Subtract,
    Multiply,
    Divide,
    Modulus,
    Power,
    Increment,
    Decrement,
    AddAndAssign,
    SubAndAssign,
    MulAndAssign,
    DivAndAssign,
    ModAndAssign,
    // logic and bits
    LogicAnd,
    LogicOr,
    LogicNot,
    BitAnd,
    BitOr,
    BitXOR,
    BitNot,
    LeftShift,
    RightShift,
    // other operators
    Sprout,
    Pipe,
    Dot,
    DoubleDot,
    Colon,
    FatArrow,
    // delimiters
    Comma,
    Semicolon,
    Newline,
    LeftParen,
    RightParen,
    LeftBrace,
    RightBrace,
    LeftBracket,
    RightBracket,
    /// A character that starts no token, or an integer literal too large to hold.
    Illegal(char),
    Eof,
}

impl Clone for Token {
    fn clone(&self) -> (r: Self)
        ensures
            r == *self,
    {
        match self {
            Token::Int(v) => Token::Int(*v),
            Token::Float(s) => Token::Float(s.clone()),
            Token::Identifier(s) => Token::Identifier(s.clone()),
            Token::Bool(b) => Token::Bool(*b),
            Token::String(s) => Token::String(s.clone()),
            Token::Let => Token::Let,
            Token::Var => Token::Var,
            Token::Const => Token::Const,
            Token::Fun => Token::Fun,
            Token::Return => Token::Return,
            Token::If => Token::If,
            Token::Else => Token::Else,
            Token::For => Token::For,
            Token::In => Token::In,
            Token::Match => Token::Match,
            Token::Struct => Token::Struct,
            Token::Assign => Token::Assign,
            Token::Equals => Token::Equals,
            Token::NotEquals => Token::NotEquals,
            Token::Less => Token::Less,
            Token::Greater => Token::Greater,
            Token::LessOrEquals => Token::LessOrEquals,
            Token::GreaterOrEquals => Token::GreaterOrEquals,
            Token::Add => Token::Add,
            Token::Subtract => Token::Subtract,
            Token::Multiply => Token::Multiply,
            Token::Divide => Token::Divide,
            Token::Modulus => Token::Modulus,
            Token::Power => Token::Power,
            Token::Increment => Token::Increment,
            Token::Decrement => Token::Decrement,
            Token::AddAndAssign => Token::AddAndAssign,
            Token::SubAndAssign => Token::SubAndAssign,
            Token::MulAndAssign => Token::MulAndAssign,
            Token::DivAndAssign => Token::DivAndAssign,
            Token::ModAndAssign => Token::ModAndAssign,
            Token::LogicAnd => Token::LogicAnd,
            Token::LogicOr => Token::LogicOr,
            Token::LogicNot => Token::LogicNot,
            Token::BitAnd => Token::BitAnd,
            Token::BitOr => Token::BitOr,
            Token::BitXOR => Token::BitXOR,
            Token::BitNot => Token::BitNot,
            Token::LeftShift => Token::LeftShift,
            Token::RightShift => Token::RightShift,
            Token::Sprout => Token::Sprout,
            Token::Pipe => Token::Pipe,
            Token::Dot => Token::Dot,
            Token::DoubleDot => Token::DoubleDot,
            Token::Colon => Token::Colon,
            Token::FatArrow => Token::FatArrow,
            Token::Comma => Token::Comma,
            Token::Semicolon => Token::Semicolon,
            Token::Newline => Token::Newline,
            Token::LeftParen => Token::LeftParen,
            Token::RightParen => Token::RightParen,
            Token::LeftBrace => Token::LeftBrace,
            Token::RightBrace => Token::RightBrace,
            Token::LeftBracket => Token::LeftBracket,
            Token::RightBracket => Token::RightBracket,
            Token::Illegal(c) => Token::Illegal(*c),
            Token::Eof => Token::Eof,
        }
    }
}

/// The variant of a token, as a number: two tokens have the same kind when they
/// are the same variant, whatever they carry.
pub open spec fn spec_kind(t: Token) -> u8 {
    match t {
        Token::Int(_) => 0,
        Token::Float(_) => 1,
        Token::Identifier(_) => 2,
        Token::Bool(_) => 3,
        Token::String(_) => 4,
        Token::Let => 5,
        Token::Var => 6,
        Token::Const => 7,
        Token::Fun => 8,
        Token::Return => 9,
        Token::If => 10,
        Token::Else => 11,
        Token::For => 12,
        Token::In => 13,
        Token::Match => 14,
        Token::Struct => 15,
        Token::Assign => 16,
        Token::Equals => 17,
        Token::NotEquals => 18,
        Token::Less => 19,
        Token::Greater => 20,
        Token::LessOrEquals => 21,
        Token::GreaterOrEquals => 22,
        Token::Add => 23,
        Token::Subtract => 24,
        Token::Multiply => 25,
        Token::Divide => 26,
        Token::Modulus => 27,
        Token::Power => 28,
        Token::Increment => 29,
        Token::Decrement => 30,
        Token::AddAndAssign => 31,
        Token::SubAndAssign => 32,
        Token::MulAndAssign => 33,
        Token::DivAndAssign => 34,
        Token::ModAndAssign => 35,
        Token::LogicAnd => 36,
        Token::LogicOr => 37,
        Token::LogicNot => 38,
        Token::BitAnd => 39,
        Token::BitOr => 40,
        Token::BitXOR => 41,
        Token::BitNot => 42,
        Token::LeftShift => 43,
        Token::RightShift => 44,
        Token::Sprout => 45,
        Token::Pipe => 46,
        Token::Dot => 47,
        Token::DoubleDot => 48,
        Token::Colon => 49,
        Token::FatArrow => 50,
        Token::Comma => 51,
        Token::Semicolon => 52,
        Token::Newline => 53,
        Token::LeftParen => 54,
        Token::RightParen => 55,
        Token::LeftBrace => 56,
        Token::RightBrace => 57,
        Token::LeftBracket => 58,
        Token::RightBracket => 59,
        Token::Illegal(_) => 60,
        Token::Eof => 61,
    }
}

impl Token {
    /// The number of this token's variant.
    pub fn kind(&self) -> (k: u8)
        ensures
            k == spec_kind(*self),
    {
        match self {
            Token::Int(_) => 0,
            Token::Float(_) => 1,
            Token::Identifier(_) => 2,
            Token::Bool(_) => 3,
            Token::String(_) => 4,
            Token::Let => 5,
            Token::Var => 6,
            Token::Const => 7,
            Token::Fun => 8,
            Token::Return => 9,
            Token::If => 10,
            Token::Else => 11,
            Token::For => 12,
            Token::In => 13,
            Token::Match => 14,
            Token::Struct => 15,
            Token::Assign => 16,
            Token::Equals => 17,
            Token::NotEquals => 18,
            Token::Less => 19,
            Token::Greater => 20,
            Token::LessOrEquals => 21,
            Token::GreaterOrEquals => 22,
            Token::Add => 23,
            Token::Subtract => 24,
            Token::Multiply => 25,
            Token::Divide => 26,
            Token::Modulus => 27,
            Token::Power => 28,
            Token::Increment => 29,
            Token::Decrement => 30,
            Token::AddAndAssign => 31,
            Token::SubAndAssign => 32,
            Token::MulAndAssign => 33,
            Token::DivAndAssign => 34,
            Token::ModAndAssign => 35,
            Token::LogicAnd => 36,
            Token::LogicOr => 37,
            Token::LogicNot => 38,
            Token::BitAnd => 39,
            Token::BitOr => 40,
            Token::BitXOR => 41,
            Token::BitNot => 42,
            Token::LeftShift => 43,
            Token::RightShift => 44,
            Token::Sprout => 45,
            Token::Pipe => 46,
            Token::Dot => 47,
            Token::DoubleDot => 48,
            Token::Colon => 49,
            Token::FatArrow => 50,
            Token::Comma => 51,
            Token::Semicolon => 52,
            Token::Newline => 53,
            Token::LeftParen => 54,
            Token::RightParen => 55,
            Token::LeftBrace => 56,
            Token::RightBrace => 57,
            Token::LeftBracket => 58,
            Token::RightBracket => 59,
            Token::Illegal(_) => 60,
            Token::Eof => 61,
        }
    }

    /// Whether the two tokens are the same variant.
    pub fn same_kind(&self, other: &Token) -> (r: bool)
        ensures
            r == (spec_kind(*self) == spec_kind(*other)),
    {
        self.kind() == other.kind()
    }
}


/// How a token is written in messages: its text as it stands in the source
/// (a string literal in quotes), `line break`, or `end of input`.
pub open spec fn token_text(t: Token) -> Seq<char> {
    match t {
        Token::Int(v) => int_text(v as int),
        Token::Float(s) => s@,
        Token::Identifier(s) => s@,
        Token::Bool(b) => if b {
            "true"@
        } else {
            "false"@
        },
        Token::String(s) => seq!['"'] + s@ + seq!['"'],
        Token::Let => "let"@,
        Token::Var => "var"@,
        Token::Const => "const"@,
        Token::Fun => "fun"@,
        Token::Return => "return"@,
        Token::If => "if"@,
        Token::Else => "else"@,
        Token::For => "for"@,
        Token::In => "in"@,
        Token::Match => "match"@,
        Token::Struct => "struct"@,
        Token::Assign => "="@,
        Token::Equals => "=="@,
        Token::NotEquals => "!="@,
        Token::Less => "<"@,
        Token::Greater => ">"@,
        Token::LessOrEquals => "<="@,
        Token::GreaterOrEquals => ">="@,
        Token::Add => "+"@,
        Token::Subtract => "-"@,
        Token::Multiply => "*"@,
        Token::Divide => "/"@,
        Token::Modulus => "%"@,
        Token::Power => "**"@,
        Token::Increment => "++"@,
        Token::Decrement => "--"@,
        Token::AddAndAssign => "+="@,
        Token::SubAndAssign => "-="@,
        Token::MulAndAssign => "*="@,
        Token::DivAndAssign => "/="@,
        Token::ModAndAssign => "%="@,
        Token::LogicAnd => "&&"@,
        Token::LogicOr => "||"@,
        Token::LogicNot => "!"@,
        Token::BitAnd => "&"@,
        Token::BitOr => "#"@,
        Token::BitXOR => "^"@,
        Token::BitNot => "~"@,
        Token::LeftShift => "<<"@,
        Token::RightShift => ">>"@,
        Token::Sprout => "~>"@,
        Token::Pipe => "|"@,
        Token::Dot => "."@,
        Token::DoubleDot => ".."@,
        Token::Colon => ":"@,
        Token::FatArrow => "=>"@,
        Token::Comma => ","@,
        Token::Semicolon => ";"@,
        Token::Newline => "line break"@,
        Token::LeftParen => "("@,
        Token::RightParen => ")"@,
        Token::LeftBrace => "{"@,
        Token::RightBrace => "}"@,
        Token::LeftBracket => "["@,
        Token::RightBracket => "]"@,
        Token::Eof => "end of input"@,
        Token::Illegal(c) => seq![c],
    }
}

impl Token {
    /// The token as written in messages.
    pub fn text(&self) -> (r: String)
        ensures
            r@ == token_text(*self),
    {
        match self {
            Token::Int(v) => {
                let mut s = String::new();
                push_int(&mut s, *v);
                s
            },
            Token::Float(s) => s.clone(),
            Token::Identifier(s) => s.clone(),
            Token::Bool(b) => if *b {
                String::from_str("true")
            } else {
                String::from_str("false")
            },
            Token::String(s) => {
                let mut r = String::new();
                push_char(&mut r, '"');
                push_str(&mut r, s.as_str());
                push_char(&mut r, '"');
                r
            },
            Token::Let => String::from_str("let"),
            Token::Var => String::from_str("var"),
            Token::Const => String::from_str("const"),
            Token::Fun => String::from_str("fun"),
            Token::Return => String::from_str("return"),
            Token::If => String::from_str("if"),
            Token::Else => String::from_str("else"),
            Token::For => String::from_str("for"),
            Token::In => String::from_str("in"),
            Token::Match => String::from_str("match"),
            Token::Struct => String::from_str("struct"),
            Token::Assign => String::from_str("="),
            Token::Equals => String::from_str("=="),
            Token::NotEquals => String::from_str("!="),
            Token::Less => String::from_str("<"),
            Token::Greater => String::from_str(">"),
            Token::LessOrEquals => String::from_str("<="),
            Token::GreaterOrEquals => String::from_str(">="),
            Token::Add => String::from_str("+"),
            Token::Subtract => String::from_str("-"),
            Token::Multiply => String::from_str("*"),
            Token::Divide => String::from_str("/"),
            Token::Modulus => String::from_str("%"),
            Token::Power => String::from_str("**"),
            Token::Increment => String::from_str("++"),
            Token::Decrement => String::from_str("--"),
            Token::AddAndAssign => String::from_str("+="),
            Token::SubAndAssign => String::from_str("-="),
            Token::MulAndAssign => String::from_str("*="),
            Token::DivAndAssign => String::from_str("/="),
            Token::ModAndAssign => String::from_str("%="),
            Token::LogicAnd => String::from_str("&&"),
            Token::LogicOr => String::from_str("||"),
            Token::LogicNot => String::from_str("!"),
            Token::BitAnd => String::from_str("&"),
            Token::BitOr => String::from_str("#"),
            Token::BitXOR => String::from_str("^"),
            Token::BitNot => String::from_str("~"),
            Token::LeftShift => String::from_str("<<"),
            Token::RightShift => String::from_str(">>"),
            Token::Sprout => String::from_str("~>"),
            Token::Pipe => String::from_str("|"),
            Token::Dot => String::from_str("."),
            Token::DoubleDot => String::from_str(".."),
            Token::Colon => String::from_str(":"),
            Token::FatArrow => String::from_str("=>"),
            Token::Comma => String::from_str(","),
            Token::Semicolon => String::from_str(";"),
            Token::Newline => String::from_str("line break"),
            Token::LeftParen => String::from_str("("),
            Token::RightParen => String::from_str(")"),
            Token::LeftBrace => String::from_str("{"),
            Token::RightBrace => String::from_str("}"),
            Token::LeftBracket => String::from_str("["),
            Token::RightBracket => String::from_str("]"),
            Token::Eof => String::from_str("end of input"),
            Token::Illegal(c) => {
                let mut r = String::new();
                push_char(&mut r, *c);
                r
            },
        }
    }
}

} // verus!
