//! The failures that lexing, parsing and running a program can end in.

use vstd::prelude::*;
use vstd::std_specs::cmp::PartialEqSpecImpl;
use crate::text::concat2;
use vstd::string::*;

verus! {

/// What went wrong, with a message where the kind alone does not say it.
#[derive(Debug)]
pub enum Error {
    /// The text is not a well-formed program.
    SyntaxError(String),
    /// A statement could not be carried out.
    RuntimeError(String),
    /// A value could not be converted to the type an operation needs.
    TypeError(String),
    /// A variable or function is not defined.
    UndefinedError(String),
    /// The right operand of a division is zero.
    DivisionByZero,
    /// Memory is exhausted.
    OutOfMemory,
    /// An input or output operation failed.
    IoError(String),
    /// A jump names a line that the program does not hold.
    LineNumberError(String),
    /// The program asked to stop; not a failure.
    ProgramEnd,
}

/// An `Error` with its message as a sequence of characters.
pub enum ErrorView {
    SyntaxError(Seq<char>),
    RuntimeError(Seq<char>),
    TypeError(Seq<char>),
    UndefinedError(Seq<char>),
    DivisionByZero,
    OutOfMemory,
    IoError(Seq<char>),
    LineNumberError(Seq<char>),
    ProgramEnd,
}

impl ErrorView {
    /// The text shown to the user: a prefix that names the kind, then the
    /// message.
    pub open spec fn to_text(self) -> Seq<char> {
        match self {
            ErrorView::SyntaxError(m) => "Syntax error: "@ + m,
            ErrorView::RuntimeError(m) => "Runtime error: "@ + m,
            ErrorView::TypeError(m) => "Type error: "@ + m,
            ErrorView::UndefinedError(m) => "Undefined: "@ + m,
            ErrorView::DivisionByZero => "Division by zero"@,
            ErrorView::OutOfMemory => "Out of memory"@,
            ErrorView::IoError(m) => "I/O error: "@ + m,
            ErrorView::LineNumberError(m) => "Line number error: "@ + m,
            ErrorView::ProgramEnd => "Program ended"@,
        }
    }
}

impl View for Error {
    type V = ErrorView;

    open spec fn view(&self) -> ErrorView {
        match self {
            Error::SyntaxError(m) => ErrorView::SyntaxError(m@),
            Error::RuntimeError(m) => ErrorView::RuntimeError(m@),
            Error::TypeError(m) => ErrorView::TypeError(m@),
            Error::UndefinedError(m) => ErrorView::UndefinedError(m@),
            Error::DivisionByZero => ErrorView::DivisionByZero,
            Error::OutOfMemory => ErrorView::OutOfMemory,
            Error::IoError(m) => ErrorView::IoError(m@),
            Error::LineNumberError(m) => ErrorView::LineNumberError(m@),
            Error::ProgramEnd => ErrorView::ProgramEnd,
        }
    }
}

/// A result with its error seen as an `ErrorView`.
pub open spec fn result_view<T>(r: Result<T, Error>) -> Result<T, ErrorView> {
    match r {
        Ok(v) => Ok(v),
        Err(e) => Err(e@),
    }
}

impl Error {
    /// The text shown to the user.
    pub fn to_string(&self) -> (r: String)
        ensures
            r@ == self@.to_text(),
    {
        match self {
            Error::SyntaxError(m) => concat2("Syntax error: ", m.as_str()),
            Error::RuntimeError(m) => concat2("Runtime error: ", m.as_str()),
            Error::TypeError(m) => concat2("Type error: ", m.as_str()),
            Error::UndefinedError(m) => concat2("Undefined: ", m.as_str()),
            Error::DivisionByZero => String::from_str("Division by zero"),
            Error::OutOfMemory => String::from_str("Out of memory"),
            Error::IoError(m) => concat2("I/O error: ", m.as_str()),
            Error::LineNumberError(m) => concat2("Line number error: ", m.as_str()),
            Error::ProgramEnd => String::from_str("Program ended"),
        }
    }
}

impl Clone for Error {
    fn clone(&self) -> (r: Self)
        ensures
            r == *self,
    {
        match self {
            Error::SyntaxError(m) => Error::SyntaxError(m.clone()),
            Error::RuntimeError(m) => Error::RuntimeError(m.clone()),
            Error::TypeError(m) => Error::TypeError(m.clone()),
            Error::UndefinedError(m) => Error::UndefinedError(m.clone()),
            Error::DivisionByZero => Error::DivisionByZero,
            Error::OutOfMemory => Error::OutOfMemory,
            Error::IoError(m) => Error::IoError(m.clone()),
            Error::LineNumberError(m) => Error::LineNumberError(m.clone()),
            Error::ProgramEnd => Error::ProgramEnd,
        }
    }
}

impl PartialEq for Error {
    fn eq(&self, other: &Self) -> (r: bool) {
        match self {
            Error::SyntaxError(a) => match other {
                Error::SyntaxError(b) => *a == *b,
                _ => false,
            },
            Error::RuntimeError(a) => match other {
                Error::RuntimeError(b) => *a == *b,
                _ => false,
            },
            Error::TypeError(a) => match other {
                Error::TypeError(b) => *a == *b,
                _ => false,
            },
            Error::UndefinedError(a) => match other {
                Error::UndefinedError(b) => *a == *b,
                _ => false,
            },
            Error::DivisionByZero => match other {
                Error::DivisionByZero => true,
                _ => false,
            },
            Error::OutOfMemory => match other {
                Error::OutOfMemory => true,
                _ => false,
            },
            Error::IoError(a) => match other {
                Error::IoError(b) => *a == *b,
                _ => false,
            },
            Error::LineNumberError(a) => match other {
                Error::LineNumberError(b) => *a == *b,
                _ => false,
            },
            Error::ProgramEnd => match other {
                Error::ProgramEnd => true,
                _ => false,
            },
        }
    }
}

impl PartialEqSpecImpl for Error {
    open spec fn obeys_eq_spec() -> bool {
        true
    }

    open spec fn eq_spec(&self, other: &Self) -> bool {
        self@ == other@
    }
}

} // verus!
