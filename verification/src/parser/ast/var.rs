pub mod var_decl;
pub mod var_decl_map;
pub mod var_ref;
