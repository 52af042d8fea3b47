use vstd::prelude::*;

verus! {

/// The signature of a function.
#[derive(Debug, Default, Clone, PartialEq, Eq)]
pub struct FuncType {
    pub params: Vec<ValueType>,
    pub results: Vec<ValueType>,
}

/// What the contracts say of a [`FuncType`].
pub struct FuncTypeView {
    pub params: Seq<ValueType>,
    pub results: Seq<ValueType>,
}

impl View for FuncType {
    type V = FuncTypeView;

    open spec fn view(&self) -> FuncTypeView {
        FuncTypeView { params: self.params@, results: self.results@ }
    }
}

/// The type of a value: a parameter, a result or a local.
#[derive(Debug, Clone, Copy, PartialEq, Eq, Structural)]
pub enum ValueType {
    I32,
    I64,
}

impl ValueType {
    /// The value type that a byte stands for: `0x7F` is `i32`, `0x7E` is `i64`.
    pub open spec fn spec_from_u8(byte: u8) -> Option<ValueType> {
        if byte == 0x7F {
            Some(ValueType::I32)
        } else if byte == 0x7E {
            Some(ValueType::I64)
        } else {
            None
        }
    }

    /// The byte that stands for a value type.
    pub open spec fn spec_byte(self) -> u8 {
        match self {
            ValueType::I32 => 0x7F,
            ValueType::I64 => 0x7E,
        }
    }

    /// Reads a value type from its byte.
    pub fn from_u8(byte: u8) -> (value_type: Option<ValueType>)
        ensures
            value_type == Self::spec_from_u8(byte),
    {
        match byte {
            0x7F => Some(ValueType::I32),
            0x7E => Some(ValueType::I64),
            _ => None,
        }
    }
}

/// A run of locals of one type in a function body.
#[derive(Debug, Clone, Copy, PartialEq, Eq, Structural)]
pub struct FunctionLocal {
    pub type_count: u32,
    pub value_type: ValueType,
}

/// The result type of a block; only the empty one is supported.
#[derive(Debug, Clone, Copy, PartialEq, Eq, Structural)]
pub enum BlockType {
    Empty,
}

impl BlockType {
    /// How many values a block of this type leaves on the stack.
    pub open spec fn spec_result_count(self) -> nat {
        0
    }

    /// How many values a block of this type leaves on the stack.
    pub fn result_count(&self) -> (count: usize)
        ensures
            count == self.spec_result_count(),
    {
        match self {
            BlockType::Empty => 0,
        }
    }
}

/// A structured block as an instruction carries it.
#[derive(Debug, Clone, Copy, PartialEq, Eq, Structural)]
pub struct Block {
    pub block_type: BlockType,
}

/// What an export names.
#[derive(Debug, Clone, Copy, PartialEq, Eq, Structural)]
pub enum ExportDesc {
    Func(u32),
}

/// One entry of the export section.
#[derive(Debug, Clone, PartialEq, Eq)]
pub struct Export {
    pub name: String,
    pub desc: ExportDesc,
}

/// What the contracts say of an [`Export`].
pub struct ExportView {
    pub name: Seq<char>,
    pub desc: ExportDesc,
}

impl View for Export {
    type V = ExportView;

    open spec fn view(&self) -> ExportView {
        ExportView { name: self.name@, desc: self.desc }
    }
}

/// What an import asks for.
#[derive(Debug, Clone, Copy, PartialEq, Eq, Structural)]
pub enum ImportDesc {
    Func(u32),
}

/// One entry of the import section.
#[derive(Debug, Clone, PartialEq, Eq)]
pub struct Import {
    pub module: String,
    pub field: String,
    pub desc: ImportDesc,
}

/// What the contracts say of an [`Import`].
pub struct ImportView {
    pub module: Seq<char>,
    pub field: Seq<char>,
    pub desc: ImportDesc,
}

impl View for Import {
    type V = ImportView;

    open spec fn view(&self) -> ImportView {
        ImportView { module: self.module@, field: self.field@, desc: self.desc }
    }
}

/// The size of a memory in pages of 64 KiB.
#[derive(Debug, Clone, Copy, PartialEq, Eq, Structural)]
pub struct Limits {
    pub min: u32,
    pub max: Option<u32>,
}

/// A declared linear memory.
#[derive(Debug, Clone, Copy, PartialEq, Eq, Structural)]
pub struct Memory {
    pub limits: Limits,
}

/// A data segment: bytes to copy into a memory at instantiation.
#[derive(Debug, Clone, PartialEq, Eq)]
pub struct Data {
    pub memory_index: u32,
    pub offset: i32,
    pub init: Vec<u8>,
}

/// What the contracts say of a [`Data`] segment.
pub struct DataView {
    pub memory_index: u32,
    pub offset: i32,
    pub init: Seq<u8>,
}

impl View for Data {
    type V = DataView;

    open spec fn view(&self) -> DataView {
        DataView { memory_index: self.memory_index, offset: self.offset, init: self.init@ }
    }
}

/// The views of the items of a sequence, in order.
pub open spec fn views<T: View>(items: Seq<T>) -> Seq<T::V> {
    Seq::new(items.len(), |i: int| items[i]@)
}

} // verus!
