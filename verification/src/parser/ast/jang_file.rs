use vstd::prelude::*;

use crate::parser::ast::{function_decl::FunctionDecl, type_decl::TypeDecl};

verus! {

/// The declarations of one source file.
#[derive(Debug)]
pub struct JangFile {
    pub function_decls: Vec<FunctionDecl>,
    pub type_decls: Vec<TypeDecl>,
}

impl JangFile {
    pub fn new(function_decls: Vec<FunctionDecl>, type_decls: Vec<TypeDecl>) -> (r: Self)
        ensures
            r.function_decls == function_decls,
            r.type_decls == type_decls,
    {
        JangFile { function_decls, type_decls }
    }

    pub fn function_decls(&self) -> (r: &[FunctionDecl])
        ensures
            r@ == self.function_decls@,
    {
        self.function_decls.as_slice()
    }

    pub fn type_decls(&self) -> (r: &[TypeDecl])
        ensures
            r@ == self.type_decls@,
    {
        self.type_decls.as_slice()
    }
}

} // verus!
