pub mod codegen;
pub mod lexer;
pub mod parser;
pub mod text;
pub mod typechecker;
