//! A small statically scoped language: its abstract syntax tree, a compiler
//! from function declarations to a block-structured bytecode, and a stack
//! machine that runs the bytecode.
pub mod adt;
pub mod error;
pub mod interpreter;
pub mod parser;
pub mod source_location;
pub mod text;
