//! The HTTP statuses that the request handlers answer with.
use vstd::prelude::*;

verus! {

/// An HTTP status that a handler answers with.
#[derive(Debug, Clone, Copy, PartialEq, Eq, Structural)]
pub enum Status {
    Success,
    NoContent,
    BadRequest,
    Forbidden,
    NotFound,
    Conflict,
    PayloadTooLarge,
    RangeNotSatisfiable,
    InternalServerError,
}

/// The numeric code of a status.
pub open spec fn status_code(s: Status) -> u16 {
    match s {
        Status::Success => 200,
        Status::NoContent => 204,
        Status::BadRequest => 400,
        Status::Forbidden => 403,
        Status::NotFound => 404,
        Status::Conflict => 409,
        Status::PayloadTooLarge => 413,
        Status::RangeNotSatisfiable => 416,
        Status::InternalServerError => 500,
    }
}

impl Status {
    /// The numeric HTTP code.
    pub fn code(&self) -> (c: u16)
        ensures
            c == status_code(*self),
    {
        match self {
            Status::Success => 200,
            Status::NoContent => 204,
            Status::BadRequest => 400,
            Status::Forbidden => 403,
            Status::NotFound => 404,
            Status::Conflict => 409,
            Status::PayloadTooLarge => 413,
            Status::RangeNotSatisfiable => 416,
            Status::InternalServerError => 500,
        }
    }
}

} // verus!
