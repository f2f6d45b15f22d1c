use vstd::prelude::*;

verus! {

/// Binding strength of operators, weakest first.
#[derive(Debug, Clone, Copy, PartialEq, Eq, PartialOrd, Ord, Structural)]
pub enum Precedence {
    Lowest,
    Assign,
    LogicOr,
    LogicAnd,
    BitOr,
    BitXor,
    BitAnd,
    Equals,
    LessGreater,
    Sprout,
    Shift,
    Range,
    Sum,
    Product,
    Power,
    Prefix,
    Postfix,
}

/// The place of a precedence level in the order, weakest first.
pub open spec fn spec_rank(p: Precedence) -> u8 {
    match p {
        Precedence::Lowest => 0,
        Precedence::Assign => 1,
        Precedence::LogicOr => 2,
        Precedence::LogicAnd => 3,
        Precedence::BitOr => 4,
        Precedence::BitXor => 5,
        Precedence::BitAnd => 6,
        Precedence::Equals => 7,
        Precedence::LessGreater => 8,
        Precedence::Sprout => 9,
        Precedence::Shift => 10,
        Precedence::Range => 11,
        Precedence::Sum => 12,
        Precedence::Product => 13,
        Precedence::Power => 14,
        Precedence::Prefix => 15,
        Precedence::Postfix => 16,
    }
}

impl Precedence {
    /// The place of this level in the order, weakest first.
    pub fn rank(self) -> (r: u8)
        ensures
            r == spec_rank(self),
    {
        match self {
            Precedence::Lowest => 0,
            Precedence::Assign => 1,
            Precedence::LogicOr => 2,
            Precedence::LogicAnd => 3,
            Precedence::BitOr => 4,
            Precedence::BitXor => 5,
            Precedence::BitAnd => 6,
            Precedence::Equals => 7,
            Precedence::LessGreater => 8,
            Precedence::Sprout => 9,
            Precedence::Shift => 10,
            Precedence::Range => 11,
            Precedence::Sum => 12,
            Precedence::Product => 13,
            Precedence::Power => 14,
            Precedence::Prefix => 15,
            Precedence::Postfix => 16,
        }
    }

    /// Whether this level binds more weakly than `other`.
    pub fn binds_weaker_than(self, other: Precedence) -> (r: bool)
        ensures
            r == (spec_rank(self) < spec_rank(other)),
    {
        self.rank() < other.rank()
    }
}

} // verus!
