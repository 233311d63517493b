pub mod compiler;
pub mod instruction;
pub mod instruction_block_list;
pub mod lexical_scope;
pub mod local_table;
pub mod loop_context;
pub mod machine;
pub mod jump_targets;
