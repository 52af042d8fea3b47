use vstd::prelude::*;

verus! {

/// Why a byte image could not be decoded.
#[derive(Debug, Clone, Copy, PartialEq, Eq, Structural)]
pub enum DecodeErrorKind {
    /// The image does not start with the four bytes `\0asm`.
    BadMagic,
    /// The input ended inside an item.
    UnexpectedEof,
    /// A LEB128 integer runs beyond the five bytes that 32 bits can take.
    IntegerTooLarge,
    /// A section id beyond the range of ids that the format knows.
    UnknownSection(u8),
    /// A function type that does not start with the byte `0x60`.
    InvalidTypeTag(u8),
    /// A value type byte other than `0x7F` and `0x7E`.
    InvalidValueType(u8),
    /// An import of anything but a function.
    UnsupportedImportKind(u8),
    /// An export of anything but a function.
    UnsupportedExportKind(u8),
    /// A data segment whose offset is not `i32.const k; end`.
    InvalidConstExpr,
    /// An instruction byte outside the supported subset.
    UnknownOpcode(u8),
    /// An `if` whose block type is not the empty type `0x40`.
    UnsupportedBlockType(u8),
}

/// A decoding failure and where it happened.
#[derive(Debug, Clone, Copy, PartialEq, Eq, Structural)]
pub struct DecodeError {
    pub kind: DecodeErrorKind,
    /// How many bytes of the input were still unread when decoding stopped:
    /// the item that could not be decoded starts that far from the end.
    pub remaining: usize,
}

impl DecodeError {
    /// The offset from the start of an input of `len` bytes at which decoding stopped.
    pub fn position(&self, len: usize) -> (at: usize)
        ensures
            at == if self.remaining <= len { len - self.remaining } else { 0 },
    {
        if self.remaining <= len {
            len - self.remaining
        } else {
            0
        }
    }

    /// A short description for people.
    pub fn message(&self) -> (text: String)
        ensures
            text@ == Self::spec_message(self.kind),
    {
        let text = match self.kind {
            DecodeErrorKind::BadMagic => "failed to parse wasm: bad magic",
            DecodeErrorKind::UnexpectedEof => "failed to parse wasm: unexpected end of input",
            DecodeErrorKind::IntegerTooLarge => "failed to parse wasm: integer too large",
            DecodeErrorKind::UnknownSection(_) => "failed to parse wasm: unknown section",
            DecodeErrorKind::InvalidTypeTag(_) => "failed to parse wasm: invalid function type",
            DecodeErrorKind::InvalidValueType(_) => "failed to parse wasm: invalid value type",
            DecodeErrorKind::UnsupportedImportKind(_) => "failed to parse wasm: unsupported import kind",
            DecodeErrorKind::UnsupportedExportKind(_) => "failed to parse wasm: unsupported export kind",
            DecodeErrorKind::InvalidConstExpr => "failed to parse wasm: invalid constant expression",
            DecodeErrorKind::UnknownOpcode(_) => "failed to parse wasm: invalid opcode",
            DecodeErrorKind::UnsupportedBlockType(_) => "failed to parse wasm: unsupported block type",
        };
        String::from_str(text)
    }

    /// The text of [`DecodeError::message`] for each kind of failure.
    pub open spec fn spec_message(kind: DecodeErrorKind) -> Seq<char> {
        match kind {
            DecodeErrorKind::BadMagic => "failed to parse wasm: bad magic"@,
            DecodeErrorKind::UnexpectedEof => "failed to parse wasm: unexpected end of input"@,
            DecodeErrorKind::IntegerTooLarge => "failed to parse wasm: integer too large"@,
            DecodeErrorKind::UnknownSection(_) => "failed to parse wasm: unknown section"@,
            DecodeErrorKind::InvalidTypeTag(_) => "failed to parse wasm: invalid function type"@,
            DecodeErrorKind::InvalidValueType(_) => "failed to parse wasm: invalid value type"@,
            DecodeErrorKind::UnsupportedImportKind(_) => "failed to parse wasm: unsupported import kind"@,
            DecodeErrorKind::UnsupportedExportKind(_) => "failed to parse wasm: unsupported export kind"@,
            DecodeErrorKind::InvalidConstExpr => "failed to parse wasm: invalid constant expression"@,
            DecodeErrorKind::UnknownOpcode(_) => "failed to parse wasm: invalid opcode"@,
            DecodeErrorKind::UnsupportedBlockType(_) => "failed to parse wasm: unsupported block type"@,
        }
    }
}

} // verus!
