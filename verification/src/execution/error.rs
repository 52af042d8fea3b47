use crate::binary::error::DecodeError;
use vstd::prelude::*;

verus! {

/// Why a decoded module could not be instantiated.
#[derive(Debug, Clone, Copy, PartialEq, Eq, Structural)]
pub enum InstantiationError {
    /// A function names a type, and the module has no type section.
    MissingTypeSection,
    /// A function names a type index beyond the type section.
    UnknownFuncType(u32),
    /// A memory of so many pages that its size in bytes cannot be addressed.
    MemoryTooLarge,
    /// A data segment names a memory that the module does not declare.
    MemoryNotFound(u32),
    /// A data segment does not lie within its memory.
    DataTooLarge,
}

/// Why the execution of an instruction stopped the call.
#[derive(Debug, Clone, Copy, PartialEq, Eq, Structural)]
pub enum Trap {
    /// An instruction needs more values than the operand stack holds.
    StackUnderflow,
    /// A function or block should leave a result, and the stack is empty.
    NoReturnValue,
    /// A local index beyond the locals of the frame.
    LocalOutOfRange,
    /// An operand is not of the type that the instruction works on.
    TypeMismatch,
    /// A store without a memory to store to.
    MemoryNotFound,
    /// A memory access that does not lie within the memory.
    MemoryOutOfBounds,
    /// An `if` without an `end` after it.
    MissingEnd,
    /// A function index beyond the functions of the store.
    FunctionNotFound,
    /// The call ran for more instructions than the runtime allows.
    StepLimit,
}

/// Why a call into the WASI shim failed.
#[derive(Debug, Clone, PartialEq, Eq)]
pub enum WasiError {
    /// The shim has no function of that name.
    UnknownFunction,
    /// Fewer arguments than the function takes, or one that is not an `i32`.
    BadArguments,
    /// No file is open under the descriptor.
    FdNotFound,
    /// The store has no memory.
    MemoryNotFound,
    /// A pointer or a length that leads outside the memory.
    OutOfBounds,
    /// The host could not write to the file.
    Io(String),
}

/// Everything that can go wrong between a byte image and the result of a call.
#[derive(Debug, Clone, PartialEq, Eq)]
pub enum Error {
    /// The image is not a module that the decoder reads.
    Decode(DecodeError),
    /// The module cannot be instantiated.
    Instantiation(InstantiationError),
    /// The module exports nothing under the name that was called.
    ExportNotFound,
    /// An imported function was called, and the host has registered nothing
    /// under its module name.
    ImportModuleNotFound,
    /// An imported function was called, and the host has registered its
    /// module, but nothing under its field name.
    ImportFunctionNotFound,
    /// An instruction could not be executed.
    Trap(Trap),
    /// A function of the host reported an error.
    Host(String),
    /// The WASI shim reported an error.
    Wasi(WasiError),
}

impl Error {
    /// The failure is one of linking: a name that resolves to nothing.
    pub open spec fn spec_is_link_error(&self) -> bool {
        *self is ExportNotFound || *self is ImportModuleNotFound || *self
            is ImportFunctionNotFound
    }

    /// The failure is one of linking: a name that resolves to nothing.
    pub fn is_link_error(&self) -> (b: bool)
        ensures
            b == self.spec_is_link_error(),
    {
        match self {
            Error::ExportNotFound => true,
            Error::ImportModuleNotFound => true,
            Error::ImportFunctionNotFound => true,
            _ => false,
        }
    }
}

} // verus!
