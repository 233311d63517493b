use vstd::prelude::*;

use crate::{
    interpreter::error::InterpreterError, parser::token::ident::Ident, source_location::SourceSpan,
};

verus! {

/// What went wrong while reading source text.
#[derive(Debug)]
pub enum ParseErrorKind {
    UnexpectedSymbol { symbol: char },
    DuplicateIdent { ident: String },
}

/// An error found while reading source text, with where it was found.
#[derive(Debug)]
pub struct ParseError {
    pub kind: ParseErrorKind,
    pub span: SourceSpan,
}

impl ParseError {
    pub fn kind(&self) -> (r: &ParseErrorKind)
        ensures
            *r == self.kind,
    {
        &self.kind
    }

    pub fn span(&self) -> (r: &SourceSpan)
        ensures
            *r == self.span,
    {
        &self.span
    }
}

/// The errors of reading and running a program.
#[derive(Debug)]
pub enum JangError {
    Parse(ParseError),
    Interpret(InterpreterError),
    ForeignError(String),
}

/// Whether `e` is the error that reports `ident` as declared twice: a parse
/// error of kind `DuplicateIdent` with its name, at its span.
pub open spec fn is_duplicate_ident_error(e: JangError, ident: Ident) -> bool {
    &&& e is Parse
    &&& e->Parse_0.span == ident.spec_span()
    &&& e->Parse_0.kind is DuplicateIdent
    &&& e->Parse_0.kind->DuplicateIdent_ident@ == ident@
}

impl JangError {
    pub fn unexpected_symbol(symbol: char, span: SourceSpan) -> (r: Self)
        ensures
            r == JangError::Parse(ParseError { kind: ParseErrorKind::UnexpectedSymbol { symbol }, span }),
    {
        JangError::Parse(ParseError { kind: ParseErrorKind::UnexpectedSymbol { symbol }, span })
    }

    pub fn duplicate_ident(ident: &Ident) -> (r: Self)
        ensures
            is_duplicate_ident_error(r, *ident),
    {
        JangError::Parse(
            ParseError {
                kind: ParseErrorKind::DuplicateIdent { ident: ident.name().to_owned() },
                span: *ident.span(),
            },
        )
    }

}

impl From<InterpreterError> for JangError {
    fn from(err: InterpreterError) -> (r: Self) {
        JangError::Interpret(err)
    }
}

impl vstd::std_specs::convert::FromSpecImpl<InterpreterError> for JangError {
    open spec fn obeys_from_spec() -> bool {
        true
    }

    open spec fn from_spec(v: InterpreterError) -> JangError {
        JangError::Interpret(v)
    }
}

/// The text an error kind is shown as.
pub open spec fn kind_text(k: ParseErrorKind) -> Seq<char> {
    match k {
        ParseErrorKind::UnexpectedSymbol { symbol } => "Unexpected symbol: '"@ + seq![symbol] + "'"@,
        ParseErrorKind::DuplicateIdent { ident } => "Duplicate identifier: \""@ + ident@ + "\""@,
    }
}

/// The text of one character (`char::to_string`).
#[verifier::external_body]
fn char_text(c: char) -> (r: String)
    ensures
        r@ == seq![c],
{
    c.to_string()
}

impl ParseErrorKind {
    /// The text the error kind is shown as.
    pub fn to_string(&self) -> (r: String)
        ensures
            r@ == kind_text(*self),
    {
        match self {
            ParseErrorKind::UnexpectedSymbol { symbol } => {
                let mut r = String::from_str("Unexpected symbol: '");
                let c = char_text(*symbol);
                r.append(c.as_str());
                r.append("'");
                r
            },
            ParseErrorKind::DuplicateIdent { ident } => {
                let mut r = String::from_str("Duplicate identifier: \"");
                r.append(ident.as_str());
                r.append("\"");
                r
            },
        }
    }
}

pub type JangResult<T> = Result<T, JangError>;

} // verus!
