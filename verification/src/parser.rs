pub mod error;
pub mod grammar;
pub mod expression;
pub mod parser;
pub mod cloning;
pub mod precedence;
pub mod program;
pub mod spans;
pub mod statement;
pub mod tree;
pub mod types;

pub use error::ParseError;
pub use expression::Expression;
pub use precedence::Precedence;
pub use statement::Statement;
