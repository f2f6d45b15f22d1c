use vstd::prelude::*;
use crate::parser::statement::Statement;

verus! {

/// A parsed source file.
#[derive(Debug, PartialEq)]
pub struct Program {
    /// Functions, structs and constants, in source order.
    pub declarations: Vec<Statement>,
    /// The other top-level statements, in source order: they run as `main`.
    pub main: Vec<Statement>,
}

} // verus!
