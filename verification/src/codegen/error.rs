use vstd::prelude::*;

verus! {

/// Why C code could not be generated.
#[derive(Debug, PartialEq)]
pub enum CodegenError {
    /// A construct turned up where another was expected.
    Unexpected(String),
    /// A construct for which the generator has no C code.
    Unsupported(String),
}

/// Why C code could not be generated, with the message as a mathematical value.
pub enum CgErr {
    Unexpected(Seq<char>),
    Unsupported(Seq<char>),
}

impl View for CodegenError {
    type V = CgErr;

    open spec fn view(&self) -> CgErr {
        match self {
            CodegenError::Unexpected(m) => CgErr::Unexpected(m@),
            CodegenError::Unsupported(m) => CgErr::Unsupported(m@),
        }
    }
}

} // verus!
