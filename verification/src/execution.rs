//! Instantiation and execution of decoded modules.

pub mod error;
pub mod import;
pub mod machine;
pub mod memory;
pub mod runtime;
pub mod store;
pub mod theorems;
pub mod value;
pub mod wasi;
