//! API error type and its uniform problem shape: an HTTP status, a short
//! machine code and a human message.

use vstd::prelude::*;
use vstd::string::*;
use crate::store::StoreError;

verus! {

#[derive(Debug)]
pub enum ApiError {
    NotFound,
    Unauthorized,
    Forbidden,
    Validation(String),
    Conflict(String),
    Internal,
}

/// The view of an error: its variant, with the message content.
pub enum ApiErrorView {
    NotFound,
    Unauthorized,
    Forbidden,
    Validation(Seq<char>),
    Conflict(Seq<char>),
    Internal,
}

impl View for ApiError {
    type V = ApiErrorView;

    open spec fn view(&self) -> ApiErrorView {
        match self {
            ApiError::NotFound => ApiErrorView::NotFound,
            ApiError::Unauthorized => ApiErrorView::Unauthorized,
            ApiError::Forbidden => ApiErrorView::Forbidden,
            ApiError::Validation(m) => ApiErrorView::Validation(m@),
            ApiError::Conflict(m) => ApiErrorView::Conflict(m@),
            ApiError::Internal => ApiErrorView::Internal,
        }
    }
}

/// HTTP status of each error.
pub open spec fn status_of(e: ApiErrorView) -> u16 {
    match e {
        ApiErrorView::NotFound => 404,
        ApiErrorView::Unauthorized => 401,
        ApiErrorView::Forbidden => 403,
        ApiErrorView::Validation(_) => 422,
        ApiErrorView::Conflict(_) => 409,
        ApiErrorView::Internal => 500,
    }
}

/// Machine-readable code of each error.
pub open spec fn code_of(e: ApiErrorView) -> Seq<char> {
    match e {
        ApiErrorView::NotFound => "not_found"@,
        ApiErrorView::Unauthorized => "unauthorized"@,
        ApiErrorView::Forbidden => "forbidden"@,
        ApiErrorView::Validation(_) => "validation"@,
        ApiErrorView::Conflict(_) => "conflict"@,
        ApiErrorView::Internal => "internal"@,
    }
}

/// Human message of each error.
pub open spec fn message_of(e: ApiErrorView) -> Seq<char> {
    match e {
        ApiErrorView::NotFound => "not found"@,
        ApiErrorView::Unauthorized => "sign in required"@,
        ApiErrorView::Forbidden => "no access to this resource"@,
        ApiErrorView::Validation(m) => m,
        ApiErrorView::Conflict(m) => m,
        ApiErrorView::Internal => "something went wrong"@,
    }
}

/// The text of a literal as an owned `String`.
pub fn text(s: &str) -> (r: String)
    ensures
        r@ == s@,
{
    s.to_owned()
}

impl ApiError {
    /// A validation error with the given message.
    pub fn validation(m: &str) -> (e: ApiError)
        ensures
            e@ == ApiErrorView::Validation(m@),
    {
        ApiError::Validation(text(m))
    }

    /// A conflict error with the given message.
    pub fn conflict(m: &str) -> (e: ApiError)
        ensures
            e@ == ApiErrorView::Conflict(m@),
    {
        ApiError::Conflict(text(m))
    }

    /// The response this error becomes: status, code and message.
    pub fn problem(&self) -> (r: (u16, String, String))
        ensures
            r.0 == status_of(self@),
            r.1@ == code_of(self@),
            r.2@ == message_of(self@),
    {
        match self {
            ApiError::NotFound => (404, text("not_found"), text("not found")),
            ApiError::Unauthorized => (401, text("unauthorized"), text("sign in required")),
            ApiError::Forbidden => (403, text("forbidden"), text("no access to this resource")),
            ApiError::Validation(m) => (422, text("validation"), m.clone()),
            ApiError::Conflict(m) => (409, text("conflict"), m.clone()),
            ApiError::Internal => (500, text("internal"), text("something went wrong")),
        }
    }

    /// Store errors as API errors: a taken email is a conflict, a missing
    /// record is not found.
    pub fn from_store(e: StoreError) -> (r: ApiError)
        ensures
            e is EmailTaken ==> r@ == ApiErrorView::Conflict("email already registered"@),
            e is NotFound ==> r@ == ApiErrorView::NotFound,
            e is NoRandomness ==> r@ == ApiErrorView::Internal,
    {
        match e {
            StoreError::EmailTaken => ApiError::conflict("email already registered"),
            StoreError::NotFound(_) => ApiError::NotFound,
            StoreError::NoRandomness => ApiError::Internal,
        }
    }
}

} // verus!
