use vstd::prelude::*;

use crate::parser::ast::{
    bind_statement::BindStatement, block::Block, call_expression::CallExpression,
    if_statement::IfStatement, loop_statement::LoopStatement, rebind_statement::RebindStatement,
    ret_statement::RetStatement,
};

verus! {

/// The statements of the language.
#[derive(Debug)]
pub enum Statement {
    Bind(BindStatement),
    Rebind(RebindStatement),
    Ret(RetStatement),
    CallStatement(CallExpression),
    IfStatement(IfStatement),
    LoopStatement(LoopStatement),
    Block(Block),
    Break,
}

} // verus!
