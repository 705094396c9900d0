use vstd::prelude::*;

verus! {

/// Jump condition codes, in the order of their 3-bit encoding.
#[derive(Debug, Clone, Copy, PartialEq, Eq, Structural)]
pub enum CC {
    NotEq,
    Eq,
    NoCarry,
    Carry,
    Neg,
    GreaterEq,
    Less,
    Unconditional,
}

impl CC {
    /// The 3-bit code of the condition.
    pub open spec fn code(self) -> u16 {
        match self {
            CC::NotEq => 0,
            CC::Eq => 1,
            CC::NoCarry => 2,
            CC::Carry => 3,
            CC::Neg => 4,
            CC::GreaterEq => 5,
            CC::Less => 6,
            CC::Unconditional => 7,
        }
    }

    /// The condition code placed at bits 12:10 of a jump instruction word.
    pub fn to_bits_repr(&self) -> (r: u16)
        ensures
            r == self.code() * 1024,
            r < 8192,
    {
        match self {
            CC::NotEq => 0x0000,
            CC::Eq => 0x0400,
            CC::NoCarry => 0x0800,
            CC::Carry => 0x0C00,
            CC::Neg => 0x1000,
            CC::GreaterEq => 0x1400,
            CC::Less => 0x1800,
            CC::Unconditional => 0x1C00,
        }
    }
}

} // verus!
