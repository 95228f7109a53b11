//! Refusals: what a request that cannot be granted is answered.

use vstd::prelude::*;

verus! {

/// Why a request is refused.
#[derive(Clone, Copy, Debug, PartialEq, Eq, Structural)]
pub enum ErrorStatus {
    BadRequest,
    Unauthorized,
    Forbidden,
    NotFound,
    Conflict,
    Internal,
}

impl ErrorStatus {
    /// The HTTP status code of the refusal.
    pub open spec fn http_code(self) -> u16 {
        match self {
            ErrorStatus::BadRequest => 400,
            ErrorStatus::Unauthorized => 401,
            ErrorStatus::Forbidden => 403,
            ErrorStatus::NotFound => 404,
            ErrorStatus::Conflict => 409,
            ErrorStatus::Internal => 500,
        }
    }

    /// The HTTP status code of the refusal.
    pub fn code(&self) -> (result: u16)
        ensures
            result == self.http_code(),
    {
        match self {
            ErrorStatus::BadRequest => 400,
            ErrorStatus::Unauthorized => 401,
            ErrorStatus::Forbidden => 403,
            ErrorStatus::NotFound => 404,
            ErrorStatus::Conflict => 409,
            ErrorStatus::Internal => 500,
        }
    }
}

/// A refusal: its kind, and the message for the person who asked.
#[derive(Debug)]
pub struct ApiError {
    pub status: ErrorStatus,
    pub message: String,
}

/// What a refusal says.
#[verifier::ext_equal]
pub struct ErrorView {
    pub status: ErrorStatus,
    pub message: Seq<char>,
}

impl View for ApiError {
    type V = ErrorView;

    open spec fn view(&self) -> ErrorView {
        ErrorView { status: self.status, message: self.message@ }
    }
}

pub open spec fn bad_request(message: Seq<char>) -> ErrorView {
    ErrorView { status: ErrorStatus::BadRequest, message }
}

pub open spec fn unauthorized(message: Seq<char>) -> ErrorView {
    ErrorView { status: ErrorStatus::Unauthorized, message }
}

pub open spec fn forbidden(message: Seq<char>) -> ErrorView {
    ErrorView { status: ErrorStatus::Forbidden, message }
}

pub open spec fn not_found(message: Seq<char>) -> ErrorView {
    ErrorView { status: ErrorStatus::NotFound, message }
}

pub open spec fn conflict(message: Seq<char>) -> ErrorView {
    ErrorView { status: ErrorStatus::Conflict, message }
}

pub open spec fn internal(message: Seq<char>) -> ErrorView {
    ErrorView { status: ErrorStatus::Internal, message }
}

impl ApiError {
    pub fn bad_request(message: &str) -> (result: Self)
        ensures
            result@ == bad_request(message@),
    {
        ApiError { status: ErrorStatus::BadRequest, message: message.to_owned() }
    }

    pub fn unauthorized(message: &str) -> (result: Self)
        ensures
            result@ == unauthorized(message@),
    {
        ApiError { status: ErrorStatus::Unauthorized, message: message.to_owned() }
    }

    pub fn forbidden(message: &str) -> (result: Self)
        ensures
            result@ == forbidden(message@),
    {
        ApiError { status: ErrorStatus::Forbidden, message: message.to_owned() }
    }

    pub fn not_found(message: &str) -> (result: Self)
        ensures
            result@ == not_found(message@),
    {
        ApiError { status: ErrorStatus::NotFound, message: message.to_owned() }
    }

    pub fn conflict(message: &str) -> (result: Self)
        ensures
            result@ == conflict(message@),
    {
        ApiError { status: ErrorStatus::Conflict, message: message.to_owned() }
    }

    pub fn internal(message: &str) -> (result: Self)
        ensures
            result@ == internal(message@),
    {
        ApiError { status: ErrorStatus::Internal, message: message.to_owned() }
    }
}

/// What an operation answers: the view of what it grants, or of its refusal.
pub open spec fn answer<T: View>(result: Result<T, ApiError>) -> Result<T::V, ErrorView> {
    match result {
        Ok(granted) => Ok(granted@),
        Err(refusal) => Err(refusal@),
    }
}

} // verus!
