use vstd::prelude::*;

verus! {

/// The HTTP statuses that the cache answers with.
#[derive(Clone, Copy, Debug, PartialEq, Eq, Structural)]
pub enum Status {
    Success,
    NoContent,
    BadRequest,
    Unauthorized,
    NotFound,
    LengthRequired,
    PayloadTooLarge,
    InternalServerError,
}

impl Status {
    /// The numeric HTTP status code.
    pub open spec fn spec_code(self) -> u16 {
        match self {
            Status::Success => 200,
            Status::NoContent => 204,
            Status::BadRequest => 400,
            Status::Unauthorized => 401,
            Status::NotFound => 404,
            Status::LengthRequired => 411,
            Status::PayloadTooLarge => 413,
            Status::InternalServerError => 500,
        }
    }

    /// The numeric HTTP status code.
    pub fn code(&self) -> (res: u16)
        ensures
            res == self.spec_code(),
    {
        match self {
            Status::Success => 200,
            Status::NoContent => 204,
            Status::BadRequest => 400,
            Status::Unauthorized => 401,
            Status::NotFound => 404,
            Status::LengthRequired => 411,
            Status::PayloadTooLarge => 413,
            Status::InternalServerError => 500,
        }
    }
}

} // verus!
