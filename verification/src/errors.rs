//! Errors the service answers with.

use vstd::prelude::*;

verus! {

/// The kind of an error, which decides the HTTP status it is answered with.
#[derive(PartialEq, Eq, Structural, Clone, Copy, Debug)]
pub enum ErrorKind {
    InvalidRequest,
    Authentication,
    RateLimit,
    Upstream,
    Server,
}

/// An error with its kind and message.
#[derive(Debug)]
pub struct ApiError {
    pub kind: ErrorKind,
    pub message: String,
}

pub struct ApiErrorV {
    pub kind: ErrorKind,
    pub message: Seq<char>,
}

impl View for ApiError {
    type V = ApiErrorV;

    open spec fn view(&self) -> ApiErrorV {
        ApiErrorV { kind: self.kind, message: self.message@ }
    }
}

/// An error of kind `kind` with message `message`.
pub open spec fn err_v(kind: ErrorKind, message: Seq<char>) -> ApiErrorV {
    ApiErrorV { kind, message }
}

impl ApiError {
    /// An error of kind `kind` with message `message`.
    pub fn new(kind: ErrorKind, message: &str) -> (r: ApiError)
        ensures
            r@ == err_v(kind, message@),
    {
        ApiError { kind, message: String::from_str(message) }
    }

    /// A request the service cannot serve as asked.
    pub fn invalid_request(message: &str) -> (r: ApiError)
        ensures
            r@ == err_v(ErrorKind::InvalidRequest, message@),
    {
        ApiError::new(ErrorKind::InvalidRequest, message)
    }

    /// A request without valid credentials.
    pub fn authentication(message: &str) -> (r: ApiError)
        ensures
            r@ == err_v(ErrorKind::Authentication, message@),
    {
        ApiError::new(ErrorKind::Authentication, message)
    }

    /// A failure of the upstream service.
    pub fn upstream(message: &str) -> (r: ApiError)
        ensures
            r@ == err_v(ErrorKind::Upstream, message@),
    {
        ApiError::new(ErrorKind::Upstream, message)
    }

    /// A failure of this service.
    pub fn server(message: &str) -> (r: ApiError)
        ensures
            r@ == err_v(ErrorKind::Server, message@),
    {
        ApiError::new(ErrorKind::Server, message)
    }

    /// No account is free to serve the request.
    pub fn rate_limit(message: &str) -> (r: ApiError)
        ensures
            r@ == err_v(ErrorKind::RateLimit, message@),
    {
        ApiError::new(ErrorKind::RateLimit, message)
    }
}

} // verus!
