pub mod env;
pub mod error;
pub mod types;
pub mod checker;
