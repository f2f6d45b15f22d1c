use vstd::prelude::*;
use crate::lexer::token::PrimitiveType;

verus! {

/// A dotted path naming a type, such as `Sql.databases.psql`.
#[derive(Debug, PartialEq)]
pub struct TypePath {
    pub segments: Vec<String>,
}

/// A type as written in the source.
#[derive(Debug, PartialEq)]
pub enum Type {
    /// `int`, `float`, `bool` or `string`.
    Primitive(PrimitiveType),
    /// A named type, such as `User` or `std.vector`.
    Named(TypePath),
    /// A name applied to one type, such as `Win(User)`.
    Generic { name: String, param: Box<Type> },
    /// Alternatives separated by `|`.
    Union(Vec<Type>),
}

} // verus!
