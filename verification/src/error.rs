//! What can go wrong when a filter is read or applied.

use vstd::prelude::*;
use vstd::string::StringExecFns;
use crate::parser::model::CompareOp;

verus! {

/// Why a filter could not be read or applied.
#[derive(Debug, PartialEq)]
pub enum Error {
    /// No beginning of the text is a filter. Holds the text.
    Parser(String),
    /// A resource could not be turned into a JSON value. Holds the reason.
    SerializationError(String),
    /// A beginning of the text is a filter, and something follows it. Holds the whole
    /// text and what follows the filter.
    WrongFilterFormat(String, String),
    InvalidFilter,
    InvalidResource,
    /// The operator has no meaning for values of the kind that was compared. Holds
    /// the operator and the name of the kind.
    WrongOperator(CompareOp, String),
    /// A value that is no boolean met a boolean. Holds the value, written out.
    MalformedBoolean(String),
    /// A value that is no number met a number, or a number met a text that is none.
    /// Holds the one that is no number, written out.
    MalformedNumber(String),
    /// A value that is no string met a text. Holds the value, written out.
    MalformedString(String),
    /// A value that is no date and time met one, or a date and time met a text that
    /// is none. Holds the one that is no date and time, written out.
    MalformedDatetime(String),
    InvalidComparisonValue(String),
}

/// An error, its texts taken as sequences of characters.
pub enum ErrorView {
    Parser(Seq<char>),
    SerializationError(Seq<char>),
    WrongFilterFormat(Seq<char>, Seq<char>),
    InvalidFilter,
    InvalidResource,
    WrongOperator(CompareOp, Seq<char>),
    MalformedBoolean(Seq<char>),
    MalformedNumber(Seq<char>),
    MalformedString(Seq<char>),
    MalformedDatetime(Seq<char>),
    InvalidComparisonValue(Seq<char>),
}

impl View for Error {
    type V = ErrorView;

    open spec fn view(&self) -> ErrorView {
        match self {
            Error::Parser(text) => ErrorView::Parser(text@),
            Error::SerializationError(reason) => ErrorView::SerializationError(reason@),
            Error::WrongFilterFormat(text, rest) => ErrorView::WrongFilterFormat(text@, rest@),
            Error::InvalidFilter => ErrorView::InvalidFilter,
            Error::InvalidResource => ErrorView::InvalidResource,
            Error::WrongOperator(op, kind) => ErrorView::WrongOperator(*op, kind@),
            Error::MalformedBoolean(text) => ErrorView::MalformedBoolean(text@),
            Error::MalformedNumber(text) => ErrorView::MalformedNumber(text@),
            Error::MalformedString(text) => ErrorView::MalformedString(text@),
            Error::MalformedDatetime(text) => ErrorView::MalformedDatetime(text@),
            Error::InvalidComparisonValue(text) => ErrorView::InvalidComparisonValue(text@),
        }
    }
}

/// A verdict or a failure, the failure taken by its view.
pub open spec fn outcome(r: Result<bool, Error>) -> Result<bool, ErrorView> {
    match r {
        Ok(b) => Ok(b),
        Err(e) => Err(e@),
    }
}

impl Error {
    /// The failure that an operator has no meaning for values of a kind.
    pub fn wrong_operator(compare_op: &CompareOp, resource: &str) -> (r: Error)
        ensures
            r@ == ErrorView::WrongOperator(*compare_op, resource@),
    {
        Error::WrongOperator(*compare_op, String::from_str(resource))
    }
}

} // verus!
