pub mod assignment_statement;
pub mod ast;
pub mod binary_expression;
pub mod bind_statement;
pub mod block;
pub mod builder_context;
pub mod call_expression;
pub mod dot_expression;
pub mod expression;
pub mod expression_list;
pub mod function_decl;
pub mod id;
pub mod if_statement;
pub mod jang_file;
pub mod let_statement;
pub mod literal_expression;
pub mod loop_statement;
pub mod rebind_statement;
pub mod ret_statement;
pub mod statement;
pub mod struct_expression;
pub mod type_decl;
pub mod enum_type_decl;
pub mod type_expr;
pub mod unary_experssion;
pub mod var;
pub mod code_formatter;
pub mod source_text;
