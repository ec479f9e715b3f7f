//! The ways in which a request can fail.
use vstd::prelude::*;

verus! {

/// Why a request is not served.
#[derive(Debug, PartialEq, Eq)]
pub enum CommonError {
    /// The server or its configuration is at fault.
    InternalError(String),
    /// The request is understood, and refused.
    Forbidden(String),
    /// The request is malformed.
    BadRequest(String),
    /// A header of the request holds something else than visible ASCII characters and blanks.
    InvalidHeader,
}

/// An error, as text.
pub enum ErrorModel {
    InternalError(Seq<char>),
    Forbidden(Seq<char>),
    BadRequest(Seq<char>),
    InvalidHeader,
}

impl View for CommonError {
    type V = ErrorModel;

    open spec fn view(&self) -> ErrorModel {
        match self {
            CommonError::InternalError(text) => ErrorModel::InternalError(text@),
            CommonError::Forbidden(text) => ErrorModel::Forbidden(text@),
            CommonError::BadRequest(text) => ErrorModel::BadRequest(text@),
            CommonError::InvalidHeader => ErrorModel::InvalidHeader,
        }
    }
}

/// A text that cannot be the value of a header.
#[derive(Debug, PartialEq, Eq)]
pub struct InvalidValue;

} // verus!
