//! What a request over HTTP asks for, and the errors that are sent back.

use vstd::prelude::*;
use vstd::string::StringExecFns;
use crate::text::{decimal_value, parse_u32, parse_u64, same_text};
use crate::types::{ComputePointRequest, Error, ErrorResponse, ErrorType, SerComplex, SerFloat};

verus! {

/// The status of a request that cannot be understood.
pub const BAD_REQUEST: i64 = 400;

/// The status of a request for a path that is not served.
pub const NOT_FOUND: i64 = 404;

/// An error reply: the status and the body that is sent as JSON.
#[derive(Clone, Debug, PartialEq, Eq)]
pub struct HttpError {
    pub status_code: i64,
    pub response: ErrorResponse,
}

/// What a path asks for.
#[derive(Clone, Copy, Debug, PartialEq, Eq, Structural)]
pub enum Route {
    /// The classification of a point.
    Point,
    /// A sign of life.
    Health,
}

/// What is wrong with the parameters of a request for a point.
#[derive(Clone, Copy, Debug, PartialEq, Eq, Structural)]
pub enum ParameterError {
    /// There is no `x`.
    MissingX,
    /// There is no `y`.
    MissingY,
    /// There is no `iterations`.
    MissingIterations,
    /// There is no `x_prec`.
    MissingXPrec,
    /// There is no `y_prec`.
    MissingYPrec,
    /// `iterations` is not an unsigned decimal number of 32 bits.
    InvalidIterations,
    /// `x_prec` is not an unsigned decimal number of 64 bits.
    InvalidXPrec,
    /// `y_prec` is not an unsigned decimal number of 64 bits.
    InvalidYPrec,
}

impl ParameterError {
    /// The message that tells the caller of the error.
    pub open spec fn spec_message(&self) -> Seq<char> {
        match self {
            ParameterError::MissingX => "Missing x parameter"@,
            ParameterError::MissingY => "Missing y parameter"@,
            ParameterError::MissingIterations => "Missing iterations parameter"@,
            ParameterError::MissingXPrec => "Missing x_prec parameter"@,
            ParameterError::MissingYPrec => "Missing y_prec parameter"@,
            ParameterError::InvalidIterations => "Invalid iterations parameter"@,
            ParameterError::InvalidXPrec => "Invalid x_prec parameter"@,
            ParameterError::InvalidYPrec => "Invalid y_prec parameter"@,
        }
    }

    /// The message that tells the caller of the error.
    pub fn message(&self) -> (text: &'static str)
        ensures
            text@ == self.spec_message(),
    {
        match self {
            ParameterError::MissingX => "Missing x parameter",
            ParameterError::MissingY => "Missing y parameter",
            ParameterError::MissingIterations => "Missing iterations parameter",
            ParameterError::MissingXPrec => "Missing x_prec parameter",
            ParameterError::MissingYPrec => "Missing y_prec parameter",
            ParameterError::InvalidIterations => "Invalid iterations parameter",
            ParameterError::InvalidXPrec => "Invalid x_prec parameter",
            ParameterError::InvalidYPrec => "Invalid y_prec parameter",
        }
    }
}

/// The first thing wrong with the parameters, if anything is: a parameter that is
/// missing, in the order x, y, iterations, x_prec, y_prec; else a number that does
/// not read, in the order iterations, x_prec, y_prec.
pub open spec fn first_fault(
    x: Option<&str>,
    y: Option<&str>,
    iterations: Option<&str>,
    x_prec: Option<&str>,
    y_prec: Option<&str>,
) -> Option<ParameterError> {
    if x.is_none() {
        Some(ParameterError::MissingX)
    } else if y.is_none() {
        Some(ParameterError::MissingY)
    } else if iterations.is_none() {
        Some(ParameterError::MissingIterations)
    } else if x_prec.is_none() {
        Some(ParameterError::MissingXPrec)
    } else if y_prec.is_none() {
        Some(ParameterError::MissingYPrec)
    } else if decimal_value(iterations.unwrap()@, u32::MAX as nat).is_none() {
        Some(ParameterError::InvalidIterations)
    } else if decimal_value(x_prec.unwrap()@, u64::MAX as nat).is_none() {
        Some(ParameterError::InvalidXPrec)
    } else if decimal_value(y_prec.unwrap()@, u64::MAX as nat).is_none() {
        Some(ParameterError::InvalidYPrec)
    } else {
        None
    }
}

/// Makes a request for a point from the parameters of a query. The coordinates are
/// taken as they were written; the budget and the precisions are read as unsigned
/// decimal numbers.
pub fn point_request(
    x: Option<&str>,
    y: Option<&str>,
    iterations: Option<&str>,
    x_prec: Option<&str>,
    y_prec: Option<&str>,
) -> (outcome: Result<ComputePointRequest, ParameterError>)
    ensures
        match first_fault(x, y, iterations, x_prec, y_prec) {
            Some(e) => outcome == Err::<ComputePointRequest, ParameterError>(e),
            None => {
                &&& outcome matches Ok(r)
                &&& r.c.real.value@ == x.unwrap()@
                &&& r.c.imag.value@ == y.unwrap()@
                &&& decimal_value(x_prec.unwrap()@, u64::MAX as nat) == Some(r.c.real.prec as nat)
                &&& decimal_value(y_prec.unwrap()@, u64::MAX as nat) == Some(r.c.imag.prec as nat)
                &&& decimal_value(iterations.unwrap()@, u32::MAX as nat) == Some(
                    r.iterations as nat,
                )
            },
        },
{
    let Some(x) = x else {
        return Err(ParameterError::MissingX);
    };
    let Some(y) = y else {
        return Err(ParameterError::MissingY);
    };
    let Some(iterations) = iterations else {
        return Err(ParameterError::MissingIterations);
    };
    let Some(x_prec) = x_prec else {
        return Err(ParameterError::MissingXPrec);
    };
    let Some(y_prec) = y_prec else {
        return Err(ParameterError::MissingYPrec);
    };
    let Some(iterations) = parse_u32(iterations) else {
        return Err(ParameterError::InvalidIterations);
    };
    let Some(x_prec) = parse_u64(x_prec) else {
        return Err(ParameterError::InvalidXPrec);
    };
    let Some(y_prec) = parse_u64(y_prec) else {
        return Err(ParameterError::InvalidYPrec);
    };
    Ok(
        ComputePointRequest {
            c: SerComplex {
                real: SerFloat { value: String::from_str(x), prec: x_prec },
                imag: SerFloat { value: String::from_str(y), prec: y_prec },
            },
            iterations,
        },
    )
}

/// Whether `reply` is the error reply with this status, code, message and request
/// id that blames the sender.
pub open spec fn is_sender_error(
    reply: HttpError,
    status_code: i64,
    error_code: Seq<char>,
    message: Seq<char>,
    request_id: Seq<char>,
) -> bool {
    &&& reply.status_code == status_code
    &&& reply.response.error.error_type == ErrorType::Sender
    &&& reply.response.error.code matches Some(code) && code@ == error_code
    &&& reply.response.error.message matches Some(text) && text@ == message
    &&& reply.response.request_id@ == request_id
}

/// An error reply that blames the sender.
pub fn http_error(status_code: i64, error_code: &str, message: &str, request_id: &str) -> (reply:
    HttpError)
    ensures
        is_sender_error(reply, status_code, error_code@, message@, request_id@),
{
    HttpError {
        status_code,
        response: ErrorResponse {
            error: Error {
                error_type: ErrorType::Sender,
                code: Some(String::from_str(error_code)),
                message: Some(String::from_str(message)),
            },
            request_id: String::from_str(request_id),
        },
    }
}

/// The reply to a request that cannot be understood: status 400, code `BadRequest`.
pub fn bad_request(message: &str, request_id: &str) -> (reply: HttpError)
    ensures
        is_sender_error(reply, BAD_REQUEST, "BadRequest"@, message@, request_id@),
{
    http_error(BAD_REQUEST, "BadRequest", message, request_id)
}

/// The reply to a request for a path that is not served: status 404, code `NotFound`.
pub fn not_found(request_id: &str) -> (reply: HttpError)
    ensures
        is_sender_error(reply, NOT_FOUND, "NotFound"@, "Not found"@, request_id@),
{
    http_error(NOT_FOUND, "NotFound", "Not found", request_id)
}

/// What a path asks for: `/point` a point, `/health` a sign of life.
pub open spec fn spec_route(raw_path: Seq<char>) -> Option<Route> {
    if raw_path == "/point"@ {
        Some(Route::Point)
    } else if raw_path == "/health"@ {
        Some(Route::Health)
    } else {
        None
    }
}

/// Finds what a request asks for by its path. A request without a path is answered
/// with status 400, one for a path that is not served with status 404.
pub fn route(raw_path: Option<&str>, request_id: &str) -> (found: Result<Route, HttpError>)
    ensures
        match raw_path {
            None => found matches Err(reply) && is_sender_error(
                reply,
                BAD_REQUEST,
                "BadRequest"@,
                "No path found in request"@,
                request_id@,
            ),
            Some(path) => match spec_route(path@) {
                Some(r) => found == Ok::<Route, HttpError>(r),
                None => found matches Err(reply) && is_sender_error(
                    reply,
                    NOT_FOUND,
                    "NotFound"@,
                    "Not found"@,
                    request_id@,
                ),
            },
        },
{
    match raw_path {
        None => Err(bad_request("No path found in request", request_id)),
        Some(path) => {
            if same_text(path, "/point") {
                Ok(Route::Point)
            } else if same_text(path, "/health") {
                Ok(Route::Health)
            } else {
                Err(not_found(request_id))
            }
        },
    }
}

} // verus!
