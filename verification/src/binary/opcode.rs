use vstd::prelude::*;

verus! {

/// The instruction opcodes that the decoder recognizes.
#[derive(Debug, Clone, Copy, PartialEq, Eq, Structural)]
pub enum Opcode {
    If,
    End,
    Return,
    LocalGet,
    LocalSet,
    I32Store,
    I32Const,
    I32LtS,
    I32Add,
    I32Sub,
    Call,
}

impl Opcode {
    /// The opcode that a byte stands for, if it stands for one.
    pub open spec fn spec_from_u8(byte: u8) -> Option<Opcode> {
        if byte == 0x04 {
            Some(Opcode::If)
        } else if byte == 0x0B {
            Some(Opcode::End)
        } else if byte == 0x0F {
            Some(Opcode::Return)
        } else if byte == 0x10 {
            Some(Opcode::Call)
        } else if byte == 0x20 {
            Some(Opcode::LocalGet)
        } else if byte == 0x21 {
            Some(Opcode::LocalSet)
        } else if byte == 0x36 {
            Some(Opcode::I32Store)
        } else if byte == 0x41 {
            Some(Opcode::I32Const)
        } else if byte == 0x48 {
            Some(Opcode::I32LtS)
        } else if byte == 0x6A {
            Some(Opcode::I32Add)
        } else if byte == 0x6B {
            Some(Opcode::I32Sub)
        } else {
            None
        }
    }

    /// Reads an opcode from its byte.
    pub fn from_u8(byte: u8) -> (op: Option<Opcode>)
        ensures
            op == Self::spec_from_u8(byte),
    {
        match byte {
            0x04 => Some(Opcode::If),
            0x0B => Some(Opcode::End),
            0x0F => Some(Opcode::Return),
            0x10 => Some(Opcode::Call),
            0x20 => Some(Opcode::LocalGet),
            0x21 => Some(Opcode::LocalSet),
            0x36 => Some(Opcode::I32Store),
            0x41 => Some(Opcode::I32Const),
            0x48 => Some(Opcode::I32LtS),
            0x6A => Some(Opcode::I32Add),
            0x6B => Some(Opcode::I32Sub),
            _ => None,
        }
    }
}

} // verus!
