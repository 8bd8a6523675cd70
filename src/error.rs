use vstd::prelude::*;
use vstd::string::StringExecFns;

verus! {

/// Why an evaluation failed.
#[derive(Debug, Clone, PartialEq, Eq)]
pub enum Error {
    /// A variable was read before anything was assigned to it.
    UninitializedVariable(String),
    /// The tokens do not form an expression.
    InvalidSyntax,
    /// The left side of `=` is not a variable.
    CanOnlyAssignToVariable,
    /// A division had zero as its divisor.
    DivisionByZero,
}

/// Model of an [`Error`].
pub enum ErrorView {
    UninitializedVariable(Seq<char>),
    InvalidSyntax,
    CanOnlyAssignToVariable,
    DivisionByZero,
}

impl View for Error {
    type V = ErrorView;

    open spec fn view(&self) -> ErrorView {
        match self {
            Error::UninitializedVariable(name) => ErrorView::UninitializedVariable(name@),
            Error::InvalidSyntax => ErrorView::InvalidSyntax,
            Error::CanOnlyAssignToVariable => ErrorView::CanOnlyAssignToVariable,
            Error::DivisionByZero => ErrorView::DivisionByZero,
        }
    }
}

/// Model of the result of an evaluation.
pub open spec fn result_view(r: Result<i32, Error>) -> Result<i32, ErrorView> {
    match r {
        Ok(x) => Ok(x),
        Err(e) => Err(e@),
    }
}

/// The text by which an error is shown to a person.
pub open spec fn error_message(e: ErrorView) -> Seq<char> {
    match e {
        ErrorView::UninitializedVariable(name) => "Uninitialized variable: "@ + name,
        ErrorView::InvalidSyntax => "Invalid syntax"@,
        ErrorView::CanOnlyAssignToVariable => "Can only assign to variable"@,
        ErrorView::DivisionByZero => "Division by zero"@,
    }
}

impl Error {
    /// The text by which this error is shown to a person.
    pub fn message(&self) -> (r: String)
        ensures
            r@ == error_message(self@),
    {
        match self {
            Error::UninitializedVariable(name) => {
                String::from_str("Uninitialized variable: ").concat(name.as_str())
            },
            Error::InvalidSyntax => String::from_str("Invalid syntax"),
            Error::CanOnlyAssignToVariable => String::from_str("Can only assign to variable"),
            Error::DivisionByZero => String::from_str("Division by zero"),
        }
    }
}

} // verus!
