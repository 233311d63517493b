pub mod ident;
pub mod literal;
