use vstd::prelude::*;

verus! {

/// The built-in scalar types.
#[derive(Clone, Copy, Debug, PartialEq, Eq, Structural)]
pub enum PrimitiveType {
    Bool,
    I32,
    I64,
    F32,
    F64,
}

} // verus!
