pub mod primitive;
pub mod type_expr;
