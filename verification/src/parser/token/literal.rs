use vstd::prelude::*;

verus! {

/// A literal as it appears in source text.
#[derive(Debug)]
pub enum Literal {
    /// An integer literal, kept as its decimal text.
    Integral(String),
}

impl Literal {
    /// Creates an integer literal from its decimal text.
    pub fn integral(text: &str) -> (r: Literal)
        ensures
            r is Integral,
            r->Integral_0@ == text@,
    {
        Literal::Integral(text.to_owned())
    }
}

impl Clone for Literal {
    fn clone(&self) -> (r: Literal)
        ensures
            r == *self,
    {
        match self {
            Literal::Integral(s) => Literal::Integral(s.clone()),
        }
    }
}

} // verus!
