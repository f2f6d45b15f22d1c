pub mod codegen;
pub mod error;
pub mod laws;
pub mod spec;
pub mod statements;
