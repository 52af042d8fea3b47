//! The binary module format: byte constants, the decoded module and its decoder.

pub mod encoding;
pub mod error;
pub mod format;
pub mod instruction;
pub mod leb128;
pub mod module;
pub mod opcode;
pub mod reader;
pub mod section;
pub mod types;
