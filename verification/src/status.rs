//! The status that a handler answers with.

use vstd::prelude::*;

verus! {

/// The status of an answer, for the codes that the handlers use.
#[derive(Clone, Copy, Debug, PartialEq, Eq, Structural)]
pub enum Status {
    Success,
    BadRequest,
    NotFound,
    NotAcceptable,
    RangeNotSatisfiable,
    ImATeapot,
    UpgradeRequired,
    UnavailableForLegalReasons,
    /// The answer of a handler that could not finish its work.
    InternalServerError,
}

impl Status {
    /// The number of the status.
    pub open spec fn code_of(self) -> u16 {
        match self {
            Status::Success => 200,
            Status::BadRequest => 400,
            Status::NotFound => 404,
            Status::NotAcceptable => 406,
            Status::RangeNotSatisfiable => 416,
            Status::ImATeapot => 418,
            Status::UpgradeRequired => 426,
            Status::UnavailableForLegalReasons => 451,
            Status::InternalServerError => 500,
        }
    }

    /// The number of the status.
    pub fn code(&self) -> (code: u16)
        ensures
            code == self.code_of(),
    {
        match self {
            Status::Success => 200,
            Status::BadRequest => 400,
            Status::NotFound => 404,
            Status::NotAcceptable => 406,
            Status::RangeNotSatisfiable => 416,
            Status::ImATeapot => 418,
            Status::UpgradeRequired => 426,
            Status::UnavailableForLegalReasons => 451,
            Status::InternalServerError => 500,
        }
    }
}

/// What an answer holds: its text, or the status that stands for it.
pub open spec fn answer_view(answer: Result<String, Status>) -> Result<Seq<char>, Status> {
    match answer {
        Ok(text) => Ok(text@),
        Err(status) => Err(status),
    }
}

} // verus!
