use vstd::prelude::*;

verus! {

/// The errors that compiling or running a program can raise.
#[derive(Debug)]
pub enum InterpreterError {
    Generic(String),
    Internal(String),
    JitCompile(String),
    Unimplemented(String),
    Value(String),
}

impl InterpreterError {
    pub fn generic_err(message: &str) -> (r: InterpreterError)
        ensures
            r is Generic,
            r->Generic_0@ == message@,
    {
        InterpreterError::Generic(message.to_owned())
    }

    pub fn internal_err(message: &str) -> (r: InterpreterError)
        ensures
            r is Internal,
            r->Internal_0@ == message@,
    {
        InterpreterError::Internal(message.to_owned())
    }

    pub fn jit_err(message: &str) -> (r: InterpreterError)
        ensures
            r is JitCompile,
            r->JitCompile_0@ == message@,
    {
        InterpreterError::JitCompile(message.to_owned())
    }

    pub fn unimplemented(message: &str) -> (r: InterpreterError)
        ensures
            r is Unimplemented,
            r->Unimplemented_0@ == message@,
    {
        InterpreterError::Unimplemented(message.to_owned())
    }

    pub fn value_err(message: &str) -> (r: InterpreterError)
        ensures
            r is Value,
            r->Value_0@ == message@,
    {
        InterpreterError::Value(message.to_owned())
    }
}

/// An error as contracts speak of it: its kind and its message.
pub ghost enum Failure {
    Generic(Seq<char>),
    Internal(Seq<char>),
    JitCompile(Seq<char>),
    Unimplemented(Seq<char>),
    Value(Seq<char>),
}

/// Whether an error is the one a failure describes.
pub open spec fn reports(e: InterpreterError, f: Failure) -> bool {
    match f {
        Failure::Generic(m) => e is Generic && e->Generic_0@ == m,
        Failure::Internal(m) => e is Internal && e->Internal_0@ == m,
        Failure::JitCompile(m) => e is JitCompile && e->JitCompile_0@ == m,
        Failure::Unimplemented(m) => e is Unimplemented && e->Unimplemented_0@ == m,
        Failure::Value(m) => e is Value && e->Value_0@ == m,
    }
}

/// The text an error is shown as.
pub open spec fn error_text(e: InterpreterError) -> Seq<char> {
    match e {
        InterpreterError::Generic(s) => s@,
        InterpreterError::Unimplemented(s) => "unimplemented: "@ + s@,
        InterpreterError::JitCompile(s) => "in jit compiler: "@ + s@,
        InterpreterError::Value(s) => "value error: "@ + s@,
        InterpreterError::Internal(s) => "internal error (bug): "@ + s@,
    }
}

impl InterpreterError {
    /// The text the error is shown as: its message after a prefix that
    /// names its kind.
    pub fn to_string(&self) -> (r: String)
        ensures
            r@ == error_text(*self),
    {
        let (prefix, message) = match self {
            InterpreterError::Generic(s) => ("", s),
            InterpreterError::Unimplemented(s) => ("unimplemented: ", s),
            InterpreterError::JitCompile(s) => ("in jit compiler: ", s),
            InterpreterError::Value(s) => ("value error: ", s),
            InterpreterError::Internal(s) => ("internal error (bug): ", s),
        };
        let mut r = String::from_str(prefix);
        r.append(message.as_str());
        proof {
            if self is Generic {
                reveal_strlit("");
                assert(r@ =~= message@);
            }
        }
        r
    }
}

pub type InterpreterResult<T> = Result<T, InterpreterError>;

} // verus!
