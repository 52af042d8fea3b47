use super::instruction::Instruction;
use super::types::FunctionLocal;
use vstd::prelude::*;

verus! {

/// The sections that the decoder reads or skips by name.
#[derive(Debug, Clone, Copy, PartialEq, Eq, Structural)]
pub enum SectionCode {
    Custom,
    Type,
    Import,
    Function,
    Memory,
    Export,
    Code,
    Data,
}

impl SectionCode {
    /// The section that an id byte names, if the decoder knows it.
    pub open spec fn spec_from_u8(id: u8) -> Option<SectionCode> {
        if id == 0x00 {
            Some(SectionCode::Custom)
        } else if id == 0x01 {
            Some(SectionCode::Type)
        } else if id == 0x02 {
            Some(SectionCode::Import)
        } else if id == 0x03 {
            Some(SectionCode::Function)
        } else if id == 0x05 {
            Some(SectionCode::Memory)
        } else if id == 0x07 {
            Some(SectionCode::Export)
        } else if id == 0x0a {
            Some(SectionCode::Code)
        } else if id == 0x0b {
            Some(SectionCode::Data)
        } else {
            None
        }
    }

    /// The id byte of a section.
    pub open spec fn spec_id(self) -> u8 {
        match self {
            SectionCode::Custom => 0x00,
            SectionCode::Type => 0x01,
            SectionCode::Import => 0x02,
            SectionCode::Function => 0x03,
            SectionCode::Memory => 0x05,
            SectionCode::Export => 0x07,
            SectionCode::Code => 0x0a,
            SectionCode::Data => 0x0b,
        }
    }

    /// Reads a section code from its id byte.
    pub fn from_u8(id: u8) -> (code: Option<SectionCode>)
        ensures
            code == Self::spec_from_u8(id),
    {
        match id {
            0x00 => Some(SectionCode::Custom),
            0x01 => Some(SectionCode::Type),
            0x02 => Some(SectionCode::Import),
            0x03 => Some(SectionCode::Function),
            0x05 => Some(SectionCode::Memory),
            0x07 => Some(SectionCode::Export),
            0x0a => Some(SectionCode::Code),
            0x0b => Some(SectionCode::Data),
            _ => None,
        }
    }
}

/// The body of one function: its declared locals and its instructions.
#[derive(Default, Debug, Clone, PartialEq, Eq)]
pub struct Function {
    pub locals: Vec<FunctionLocal>,
    pub code: Vec<Instruction>,
}

/// What the contracts say of a [`Function`].
pub struct FunctionView {
    pub locals: Seq<FunctionLocal>,
    pub code: Seq<Instruction>,
}

impl View for Function {
    type V = FunctionView;

    open spec fn view(&self) -> FunctionView {
        FunctionView { locals: self.locals@, code: self.code@ }
    }
}

} // verus!
