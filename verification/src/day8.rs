//! Weights from the creature index.

use crate::day7::{divide, quotient};
use crate::status::Status;
use crate::text::{i64_to_string, signed_decimal};
use vstd::prelude::*;

verus! {

/// How many hectograms make a kilogram.
pub const HECTOGRAMS_PER_KILOGRAM: i32 = 10;

/// The status code with which the index says that it has no such entry.
pub const NOT_FOUND: u16 = 404;

/// The answer for a request to the index that failed: an entry that the
/// index does not have is not found; any other failure, with a status of
/// the index or without one, is a fault.
pub fn failure_status(code: Option<u16>) -> (status: Status)
    ensures
        status == if code == Some(NOT_FOUND) {
            Status::NotFound
        } else {
            Status::InternalServerError
        },
{
    match code {
        Some(code) => if code == NOT_FOUND {
            Status::NotFound
        } else {
            Status::InternalServerError
        },
        None => Status::InternalServerError,
    }
}

/// A weight in whole kilograms, rounded towards zero, written in decimal.
pub open spec fn weight_text(weight_in_hectograms: i32) -> Seq<char> {
    signed_decimal(quotient(weight_in_hectograms as int, HECTOGRAMS_PER_KILOGRAM as int))
}

/// The weight of an entry of the index in whole kilograms.
pub fn get_weight(weight_in_hectograms: i32) -> (answer: String)
    ensures
        answer@ == weight_text(weight_in_hectograms),
{
    i64_to_string(divide(weight_in_hectograms, HECTOGRAMS_PER_KILOGRAM))
}

/// The creature index endpoints.
pub struct Day8 {}

} // verus!
