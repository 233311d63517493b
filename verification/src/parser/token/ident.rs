use vstd::prelude::*;

use crate::source_location::SourceSpan;

verus! {

/// An identifier as it appears in source text, with where it appears.
#[derive(Debug)]
pub struct Ident {
    name: String,
    span: SourceSpan,
}

impl View for Ident {
    type V = Seq<char>;

    open spec fn view(&self) -> Seq<char> {
        self.spec_name()@
    }
}

impl Ident {
    pub closed spec fn spec_name(&self) -> String {
        self.name
    }

    pub closed spec fn spec_span(&self) -> SourceSpan {
        self.span
    }

    /// Creates an identifier with the given text and no source position.
    pub fn new(name: &str) -> (r: Ident)
        ensures
            r@ == name@,
            r.spec_span() == SourceSpan::spec_empty(),
    {
        Ident { name: name.to_owned(), span: SourceSpan::empty() }
    }

    /// Creates an identifier read from the given span of the source.
    pub fn with_span(name: &str, span: SourceSpan) -> (r: Ident)
        ensures
            r@ == name@,
            r.spec_span() == span,
    {
        Ident { name: name.to_owned(), span }
    }

    /// The text of the identifier.
    pub fn name(&self) -> (r: &str)
        ensures
            r@ == self@,
    {
        self.name.as_str()
    }

    /// Where the identifier appears in the source.
    pub fn span(&self) -> (r: &SourceSpan)
        ensures
            *r == self.spec_span(),
    {
        &self.span
    }

    /// Compares two identifiers by their text.
    pub fn same_name(&self, other: &Ident) -> (r: bool)
        ensures
            r == (self@ == other@),
    {
        self.name == other.name
    }
}

impl Clone for Ident {
    fn clone(&self) -> (r: Ident)
        ensures
            r == *self,
    {
        Ident { name: self.name.clone(), span: self.span }
    }
}

} // verus!
