//! Typed errors of the evaluator and the selector engine. Every failure is
//! fail-fast: no caller continues past one.

use vstd::prelude::*;

verus! {

/// The kind of a failure.
#[derive(Clone, Copy, Debug, PartialEq, Eq, Structural)]
pub enum ErrorKind {
    /// Malformed input tokens.
    Syntax,
    /// A value of the wrong type reached an operation.
    Type,
    /// Incompatible units under arithmetic.
    Unit,
    /// Wrong number of arguments.
    Arity,
    /// An undefined variable, function or mixin.
    Name,
    /// A list index out of range or zero.
    Index,
    /// A parent selector with no parent to refer to.
    Parent,
    /// Raised by the author through the error at-rule.
    User,
    /// A construct that plain CSS input does not allow.
    Mode,
    /// An arithmetic result that left the machine range.
    Range,
}

/// A failure with its kind and a readable message.
#[derive(Clone, Debug)]
pub struct SassError {
    pub kind: ErrorKind,
    pub message: String,
}

impl SassError {
    pub fn new(kind: ErrorKind, message: String) -> (e: SassError)
        ensures
            e.kind == kind,
            e.message@ == message@,
    {
        SassError { kind, message }
    }

    /// The message, for display.
    pub fn message_str(&self) -> (r: &str)
        ensures
            r@ == self.message@,
    {
        self.message.as_str()
    }
}

} // verus!
