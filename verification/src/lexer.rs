pub mod span;
pub mod token;
pub mod lexer;
pub mod scan;
