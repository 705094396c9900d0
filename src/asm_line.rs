use vstd::prelude::*;

use crate::ccode::CC;
use crate::operand::{Operand, Reg};

verus! {

/// One line of an assembly program, as the encoder consumes it. The `bool` of
/// an instruction selects the byte form (`.B`) over the word form.
#[derive(Debug, Clone, PartialEq, Eq)]
pub enum AsmLine {
    Label(String),
    /// A conditional or unconditional jump to a label.
    Jump(CC, String),
    RRC(Operand, bool),
    SWPB(Operand, bool),
    RRA(Operand, bool),
    SXT(Operand, bool),
    PUSH(Operand, bool),
    CALL(Operand, bool),
    RETI,
    MOV(Operand, Operand, bool),
    ADD(Operand, Operand, bool),
    ADDC(Operand, Operand, bool),
    SUB(Operand, Operand, bool),
    SUBC(Operand, Operand, bool),
    CMP(Operand, Operand, bool),
    DADD(Operand, Operand, bool),
    BIT(Operand, Operand, bool),
    BIC(Operand, Operand, bool),
    BIS(Operand, Operand, bool),
    XOR(Operand, Operand, bool),
    AND(Operand, Operand, bool),
}

impl AsmLine {
    /// A single-operand instruction that the encoder supports.
    pub open spec fn is_single(self) -> bool {
        match self {
            AsmLine::RRC(..) | AsmLine::SWPB(..) | AsmLine::RRA(..) | AsmLine::SXT(..)
            | AsmLine::PUSH(..) | AsmLine::CALL(..) => true,
            _ => false,
        }
    }

    /// A double-operand instruction that the encoder supports.
    pub open spec fn is_double(self) -> bool {
        match self {
            AsmLine::MOV(..) | AsmLine::ADD(..) | AsmLine::ADDC(..) | AsmLine::SUB(..)
            | AsmLine::SUBC(..) | AsmLine::CMP(..) | AsmLine::BIT(..) | AsmLine::BIC(..)
            | AsmLine::BIS(..) | AsmLine::XOR(..) | AsmLine::AND(..) => true,
            _ => false,
        }
    }

    /// The 3-bit opcode of a single-operand instruction.
    pub open spec fn single_opcode(self) -> u16 {
        match self {
            AsmLine::RRC(..) => 0,
            AsmLine::SWPB(..) => 1,
            AsmLine::RRA(..) => 2,
            AsmLine::SXT(..) => 3,
            AsmLine::PUSH(..) => 4,
            _ => 5,
        }
    }

    /// The 4-bit opcode of a double-operand instruction.
    pub open spec fn double_opcode(self) -> u16 {
        match self {
            AsmLine::MOV(..) => 0x4,
            AsmLine::ADD(..) => 0x5,
            AsmLine::ADDC(..) => 0x6,
            AsmLine::SUBC(..) => 0x7,
            AsmLine::SUB(..) => 0x8,
            AsmLine::CMP(..) => 0x9,
            AsmLine::DADD(..) => 0xA,
            AsmLine::BIT(..) => 0xB,
            AsmLine::BIC(..) => 0xC,
            AsmLine::BIS(..) => 0xD,
            AsmLine::XOR(..) => 0xE,
            _ => 0xF,
        }
    }

    /// The source operand (the only operand of a single-operand instruction).
    pub open spec fn src(self) -> Operand {
        match self {
            AsmLine::RRC(s, _) | AsmLine::SWPB(s, _) | AsmLine::RRA(s, _) | AsmLine::SXT(s, _)
            | AsmLine::PUSH(s, _) | AsmLine::CALL(s, _) | AsmLine::MOV(s, _, _)
            | AsmLine::ADD(s, _, _) | AsmLine::ADDC(s, _, _) | AsmLine::SUB(s, _, _)
            | AsmLine::SUBC(s, _, _) | AsmLine::CMP(s, _, _) | AsmLine::DADD(s, _, _)
            | AsmLine::BIT(s, _, _) | AsmLine::BIC(s, _, _) | AsmLine::BIS(s, _, _)
            | AsmLine::XOR(s, _, _) | AsmLine::AND(s, _, _) => s,
            _ => Operand::Reg(Reg::PC),
        }
    }

    /// The destination operand of a double-operand instruction.
    pub open spec fn dst(self) -> Operand {
        match self {
            AsmLine::MOV(_, d, _) | AsmLine::ADD(_, d, _) | AsmLine::ADDC(_, d, _)
            | AsmLine::SUB(_, d, _) | AsmLine::SUBC(_, d, _) | AsmLine::CMP(_, d, _)
            | AsmLine::DADD(_, d, _) | AsmLine::BIT(_, d, _) | AsmLine::BIC(_, d, _)
            | AsmLine::BIS(_, d, _) | AsmLine::XOR(_, d, _) | AsmLine::AND(_, d, _) => d,
            _ => Operand::Reg(Reg::PC),
        }
    }

    /// The byte-form flag of an instruction.
    pub open spec fn byte_flag(self) -> bool {
        match self {
            AsmLine::RRC(_, b) | AsmLine::SWPB(_, b) | AsmLine::RRA(_, b) | AsmLine::SXT(_, b)
            | AsmLine::PUSH(_, b) | AsmLine::CALL(_, b) | AsmLine::MOV(_, _, b)
            | AsmLine::ADD(_, _, b) | AsmLine::ADDC(_, _, b) | AsmLine::SUB(_, _, b)
            | AsmLine::SUBC(_, _, b) | AsmLine::CMP(_, _, b) | AsmLine::DADD(_, _, b)
            | AsmLine::BIT(_, _, b) | AsmLine::BIC(_, _, b) | AsmLine::BIS(_, _, b)
            | AsmLine::XOR(_, _, b) | AsmLine::AND(_, _, b) => b,
            _ => false,
        }
    }

    /// The same line with its source operand replaced; lines without a source
    /// operand stay as they are.
    pub open spec fn with_src(self, op: Operand) -> AsmLine {
        match self {
            AsmLine::RRC(_, b) => AsmLine::RRC(op, b),
            AsmLine::SWPB(_, b) => AsmLine::SWPB(op, b),
            AsmLine::RRA(_, b) => AsmLine::RRA(op, b),
            AsmLine::SXT(_, b) => AsmLine::SXT(op, b),
            AsmLine::PUSH(_, b) => AsmLine::PUSH(op, b),
            AsmLine::CALL(_, b) => AsmLine::CALL(op, b),
            AsmLine::MOV(_, d, b) => AsmLine::MOV(op, d, b),
            AsmLine::ADD(_, d, b) => AsmLine::ADD(op, d, b),
            AsmLine::ADDC(_, d, b) => AsmLine::ADDC(op, d, b),
            AsmLine::SUB(_, d, b) => AsmLine::SUB(op, d, b),
            AsmLine::SUBC(_, d, b) => AsmLine::SUBC(op, d, b),
            AsmLine::CMP(_, d, b) => AsmLine::CMP(op, d, b),
            AsmLine::DADD(_, d, b) => AsmLine::DADD(op, d, b),
            AsmLine::BIT(_, d, b) => AsmLine::BIT(op, d, b),
            AsmLine::BIC(_, d, b) => AsmLine::BIC(op, d, b),
            AsmLine::BIS(_, d, b) => AsmLine::BIS(op, d, b),
            AsmLine::XOR(_, d, b) => AsmLine::XOR(op, d, b),
            AsmLine::AND(_, d, b) => AsmLine::AND(op, d, b),
            _ => self,
        }
    }

    /// Whether the line has a source operand.
    pub open spec fn has_src(self) -> bool {
        self.is_single() || self.is_double()
    }

    /// The line as it is encoded: a source `x(Rn)` with a zero offset becomes
    /// the shorter `@Rn`, which reads the same location.
    pub open spec fn normalize(self) -> AsmLine {
        if self.has_src() && self.src() is IndexedReg && self.src()->IndexedReg_1 == 0 {
            self.with_src(Operand::Indirect(self.src()->IndexedReg_0))
        } else {
            self
        }
    }

    /// The label of a label line.
    pub fn as_label_str(self) -> (r: String)
        requires
            self is Label,
        ensures
            r == self->Label_0,
    {
        match self {
            AsmLine::Label(s) => s,
            _ => String::new(),
        }
    }
}

} // verus!
