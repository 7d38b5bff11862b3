//! The error model: a structured error carrying a kind and the ordered
//! list of scope labels traversed from the root to the point of failure.

use vstd::prelude::*;
use crate::types::{anns_view, IonType};

verus! {

pub type IonResult<T> = Result<T, IonError>;

/// The closed set of failure kinds.  Underlying I/O and decode failures
/// are carried as their descriptions; every other payload names what was
/// expected or found.
#[derive(Debug, PartialEq)]
pub enum IonErrorType {
    InvalidValue(String),
    MissingField(String),
    WrongType { found: IonType, expected: IonType },
    WrongSize { found: usize, expected: usize },
    IoError(String),
    ParseError(String),
    TypeNotSupported(String),
    MissingAnnotation { expected: Vec<String> },
    IndexOutOfBounds { tried: usize, bounds: (usize, usize) },
}

/// The mathematical shape of an error kind.
#[verifier::ext_equal]
pub enum ErrorTypeView {
    InvalidValue(Seq<char>),
    MissingField(Seq<char>),
    WrongType { found: IonType, expected: IonType },
    WrongSize { found: int, expected: int },
    IoError(Seq<char>),
    ParseError(Seq<char>),
    TypeNotSupported(Seq<char>),
    MissingAnnotation { expected: Seq<Seq<char>> },
    IndexOutOfBounds { tried: int, bounds: (int, int) },
}

impl View for IonErrorType {
    type V = ErrorTypeView;

    open spec fn view(&self) -> ErrorTypeView {
        match *self {
            IonErrorType::InvalidValue(ref s) => ErrorTypeView::InvalidValue(s@),
            IonErrorType::MissingField(ref s) => ErrorTypeView::MissingField(s@),
            IonErrorType::WrongType { found, expected } => ErrorTypeView::WrongType {
                found,
                expected,
            },
            IonErrorType::WrongSize { found, expected } => ErrorTypeView::WrongSize {
                found: found as int,
                expected: expected as int,
            },
            IonErrorType::IoError(ref s) => ErrorTypeView::IoError(s@),
            IonErrorType::ParseError(ref s) => ErrorTypeView::ParseError(s@),
            IonErrorType::TypeNotSupported(ref s) => ErrorTypeView::TypeNotSupported(s@),
            IonErrorType::MissingAnnotation { ref expected } => ErrorTypeView::MissingAnnotation {
                expected: anns_view(*expected),
            },
            IonErrorType::IndexOutOfBounds { tried, bounds } => ErrorTypeView::IndexOutOfBounds {
                tried: tried as int,
                bounds: (bounds.0 as int, bounds.1 as int),
            },
        }
    }
}

/// The mathematical shape of an error: its kind and its scope path.
#[verifier::ext_equal]
pub struct ErrorView {
    pub ty: ErrorTypeView,
    pub scopes: Seq<Seq<char>>,
}

/// A structured failure: what went wrong, and where in the tree.
#[derive(Debug, PartialEq)]
pub struct IonError {
    pub ty: IonErrorType,
    pub scopes: Vec<String>,
}

impl View for IonError {
    type V = ErrorView;

    open spec fn view(&self) -> ErrorView {
        ErrorView { ty: self.ty@, scopes: anns_view(self.scopes) }
    }
}

impl IonError {
    pub fn new(ty: IonErrorType, scopes: Vec<String>) -> (r: Self)
        ensures
            r@ == (ErrorView { ty: ty@, scopes: anns_view(scopes) }),
    {
        IonError { ty, scopes }
    }
}

} // verus!
