//! The instruction set: a closed enumeration of opcodes and the total
//! decoding function from a raw byte to an opcode.

use vstd::prelude::*;

verus! {

/// One opcode of the machine. Every byte decodes to exactly one variant;
/// bytes outside the defined set decode to the distinguished `IGL`
/// (illegal) variant rather than failing.
#[derive(Clone, Copy, Debug, PartialEq, Eq, Structural)]
pub enum Opcode {
    LOAD,
    ADD,
    SUB,
    MUL,
    DIV,
    HLT,
    JMP,
    JMPF,
    JMPB,
    EQ,
    JEQ,
    JNEQ,
    NEQ,
    GT,
    LT,
    GTQ,
    LTQ,
    IGL,
}

/// The total decoding function: which opcode a raw byte stands for.
pub open spec fn opcode_of(b: u8) -> Opcode {
    if b == 0 {
        Opcode::LOAD
    } else if b == 1 {
        Opcode::ADD
    } else if b == 2 {
        Opcode::SUB
    } else if b == 3 {
        Opcode::MUL
    } else if b == 4 {
        Opcode::DIV
    } else if b == 5 {
        Opcode::HLT
    } else if b == 6 {
        Opcode::JMP
    } else if b == 7 {
        Opcode::JMPF
    } else if b == 8 {
        Opcode::JMPB
    } else if b == 9 {
        Opcode::EQ
    } else if b == 10 {
        Opcode::JEQ
    } else if b == 11 {
        Opcode::JNEQ
    } else if b == 12 {
        Opcode::NEQ
    } else if b == 13 {
        Opcode::GT
    } else if b == 14 {
        Opcode::LT
    } else if b == 15 {
        Opcode::GTQ
    } else if b == 16 {
        Opcode::LTQ
    } else {
        Opcode::IGL
    }
}

impl Opcode {
    /// Decode one raw byte into an opcode.
    pub fn from_byte(b: u8) -> (op: Opcode)
        ensures
            op == opcode_of(b),
    {
        match b {
            0 => Opcode::LOAD,
            1 => Opcode::ADD,
            2 => Opcode::SUB,
            3 => Opcode::MUL,
            4 => Opcode::DIV,
            5 => Opcode::HLT,
            6 => Opcode::JMP,
            7 => Opcode::JMPF,
            8 => Opcode::JMPB,
            9 => Opcode::EQ,
            10 => Opcode::JEQ,
            11 => Opcode::JNEQ,
            12 => Opcode::NEQ,
            13 => Opcode::GT,
            14 => Opcode::LT,
            15 => Opcode::GTQ,
            16 => Opcode::LTQ,
            _ => Opcode::IGL,
        }
    }

    /// Whether this opcode is one of the six comparison instructions, which
    /// write the equality flag.
    pub open spec fn is_comparison(self) -> bool {
        match self {
            Opcode::EQ | Opcode::NEQ | Opcode::GT | Opcode::LT | Opcode::GTQ | Opcode::LTQ => true,
            _ => false,
        }
    }
}

} // verus!
