use vstd::prelude::*;

verus! {

/// The outcome classes that a handler reports to its caller.
#[derive(Debug, Clone, Copy, PartialEq, Eq, Structural)]
pub enum Status {
    Success,
    Created,
    Accepted,
    BadRequest,
    Unauthorized,
    NotFound,
    ImATeapot,
    InternalError,
}

impl Status {
    pub open spec fn spec_code(self) -> u16 {
        match self {
            Status::Success => 200,
            Status::Created => 201,
            Status::Accepted => 202,
            Status::BadRequest => 400,
            Status::Unauthorized => 401,
            Status::NotFound => 404,
            Status::ImATeapot => 418,
            Status::InternalError => 500,
        }
    }

    /// The HTTP status code of this outcome.
    pub fn code(&self) -> (r: u16)
        ensures
            r == self.spec_code(),
    {
        match self {
            Status::Success => 200,
            Status::Created => 201,
            Status::Accepted => 202,
            Status::BadRequest => 400,
            Status::Unauthorized => 401,
            Status::NotFound => 404,
            Status::ImATeapot => 418,
            Status::InternalError => 500,
        }
    }
}

} // verus!
