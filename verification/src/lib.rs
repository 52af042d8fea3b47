//! A miniature WebAssembly runtime: a decoder for the binary module format
//! and a stack-based interpreter for a small instruction subset.

pub mod binary;
pub mod execution;
