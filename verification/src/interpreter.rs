pub mod bytecode;
pub mod error;
pub mod interpreter;
pub mod parse_as;
pub mod value;
