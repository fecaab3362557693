//! Bytecode execution core for a document-authoring language: a string
//! interner, a closed instruction catalog, and the virtual machine that
//! executes flat instruction sequences with nested, content-joining scopes.

pub mod interner;
pub mod opcodes;
pub mod ops;
pub mod paths;
pub mod vm;
pub mod value;
