use vstd::prelude::*;

use crate::parser::{ast::expression::Expression, token::ident::Ident};

verus! {

/// `name: value` in a struct expression.
#[derive(Debug)]
pub struct StructFieldInitializer {
    pub name: Ident,
    pub value: Box<Expression>,
}

impl StructFieldInitializer {
    pub fn new(name: Ident, value: Expression) -> (r: Self)
        ensures
            r.name == name,
            *r.value == value,
    {
        StructFieldInitializer { name, value: Box::new(value) }
    }

    pub fn name(&self) -> (r: &Ident)
        ensures
            *r == self.name,
    {
        &self.name
    }

    pub fn expr(&self) -> (r: &Expression)
        ensures
            *r == *self.value,
    {
        &self.value
    }
}

/// A value of an anonymous struct type: its fields' initializers.
#[derive(Debug)]
pub struct StructExpression {
    pub fields: Vec<StructFieldInitializer>,
}

impl StructExpression {
    pub fn new(fields: Vec<StructFieldInitializer>) -> (r: Self)
        ensures
            r.fields == fields,
    {
        StructExpression { fields }
    }

    pub fn fields(&self) -> (r: &[StructFieldInitializer])
        ensures
            r@ == self.fields@,
    {
        self.fields.as_slice()
    }
}

} // verus!
