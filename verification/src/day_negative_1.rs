//! The endpoint that always fails.

use crate::status::Status;
use vstd::prelude::*;

verus! {

/// The answer of the endpoint that always fails.
pub fn fake_error() -> (status: Status)
    ensures
        status == Status::InternalServerError,
{
    Status::InternalServerError
}

/// The endpoint that always fails.
pub struct DayNegative1 {}

} // verus!
