//! The sled identifier: the exclusive-or of some numbers, cubed.

use crate::status::{answer_view, Status};
use crate::text::{chars_of, i32_of, i64_to_string, parse_i32, signed_decimal, texts_of};
use vstd::prelude::*;

verus! {

/// The largest number of path segments that is worked on.
pub const MAX_SEGMENTS: usize = 20;

/// The numbers that some texts write, where each text writes a signed
/// number of 32 bits.
pub open spec fn numbers_of(texts: Seq<Seq<char>>) -> Option<Seq<i32>> {
    if forall|i: int| 0 <= i < texts.len() ==> i32_of(#[trigger] texts[i]) is Some {
        Some(Seq::new(texts.len(), |i: int| i32_of(texts[i])->0 as i32))
    } else {
        None
    }
}

/// The exclusive-or of some numbers, taken from the left. There is at
/// least one number.
pub open spec fn xor_all(numbers: Seq<i32>) -> i32
    decreases numbers.len(),
{
    if numbers.len() <= 1 {
        numbers[0]
    } else {
        xor_all(numbers.drop_last()) ^ numbers.last()
    }
}

/// The third power of a number.
pub open spec fn cube(n: int) -> int {
    n * n * n
}

/// The sled identifier of some path segments: the cube of the exclusive-or
/// of the numbers that they write, in decimal. The segments are rejected
/// where there are more than `MAX_SEGMENTS` of them or none, or where one
/// of them writes no signed number of 32 bits. Where the cube does not fit
/// 32 bits with a sign there is no answer.
pub open spec fn sled_outcome(segments: Seq<Seq<char>>) -> Result<Seq<char>, Status> {
    if segments.len() > MAX_SEGMENTS {
        Err(Status::BadRequest)
    } else {
        match numbers_of(segments) {
            None => Err(Status::BadRequest),
            Some(numbers) => if numbers.len() == 0 {
                Err(Status::BadRequest)
            } else if i32::MIN <= cube(xor_all(numbers) as int) <= i32::MAX {
                Ok(signed_decimal(cube(xor_all(numbers) as int)))
            } else {
                Err(Status::InternalServerError)
            },
        }
    }
}

/// The third power of a number, or `None` where it does not fit 32 bits
/// with a sign.
pub fn checked_cube(n: i32) -> (cubed: Option<i32>)
    ensures
        cubed.is_some() == (i32::MIN <= cube(n as int) <= i32::MAX),
        cubed matches Some(value) ==> value == cube(n as int),
{
    // beyond 1290 in either direction the cube leaves the range
    if n > 1290 || n < -1290 {
        proof {
            lemma_cube_grows(n as int);
        }
        return None;
    }
    proof {
        lemma_cube_small(n as int);
    }
    let wide: i64 = n as i64;
    let square: i64 = wide * wide;
    let value: i64 = square * wide;
    if value > i32::MAX as i64 || value < i32::MIN as i64 {
        None
    } else {
        Some(value as i32)
    }
}

proof fn lemma_cube_grows(n: int)
    requires
        n > 1290 || n < -1290,
    ensures
        cube(n) > i32::MAX || cube(n) < i32::MIN,
{
    if n > 1290 {
        assert(n * n >= 1291 * 1291) by (nonlinear_arith)
            requires
                n >= 1291,
        ;
        assert(n * n * n >= 1291 * 1291 * 1291) by (nonlinear_arith)
            requires
                n >= 1291,
                n * n >= 1291 * 1291,
        ;
    } else {
        assert(n * n >= 1291 * 1291) by (nonlinear_arith)
            requires
                n <= -1291,
        ;
        assert(n * n * n <= -(1291 * 1291 * 1291)) by (nonlinear_arith)
            requires
                n <= -1291,
                n * n >= 1291 * 1291,
        ;
    }
}

proof fn lemma_cube_small(n: int)
    requires
        -1290 <= n <= 1290,
    ensures
        0 <= n * n <= 1290 * 1290,
        -(1290 * 1290 * 1290) <= n * n * n <= 1290 * 1290 * 1290,
{
    assert(0 <= n * n <= 1290 * 1290) by (nonlinear_arith)
        requires
            -1290 <= n <= 1290,
    ;
    assert(-(1290 * 1290 * 1290) <= n * n * n <= 1290 * 1290 * 1290) by (nonlinear_arith)
        requires
            -1290 <= n <= 1290,
            0 <= n * n <= 1290 * 1290,
    ;
}

/// The sled identifier of some path segments.
pub fn sled_id(num: &Vec<String>) -> (answer: Result<String, Status>)
    ensures
        answer_view(answer) == sled_outcome(texts_of(num@)),
{
    if num.len() > MAX_SEGMENTS {
        return Err(Status::BadRequest);
    }
    let ghost texts = texts_of(num@);
    let mut folded: i32 = 0;
    let ghost mut numbers: Seq<i32> = Seq::empty();
    let mut i: usize = 0;
    while i < num.len()
        invariant
            i <= num.len(),
            texts == texts_of(num@),
            numbers.len() == i,
            forall|j: int| 0 <= j < i ==> i32_of(#[trigger] texts[j]) == Some(numbers[j] as int),
            i > 0 ==> folded == xor_all(numbers),
        decreases num.len() - i,
    {
        assert(texts[i as int] == num[i as int]@);
        let chars = chars_of(num[i].as_str());
        match parse_i32(&chars) {
            Some(value) => {
                proof {
                    let grown = numbers.push(value);
                    assert(grown.drop_last() == numbers);
                    numbers = grown;
                }
                folded = if i == 0 {
                    value
                } else {
                    folded ^ value
                };
            },
            None => {
                return Err(Status::BadRequest);
            },
        }
        i += 1;
    }
    assert(numbers =~= numbers_of(texts)->0);
    if num.len() == 0 {
        return Err(Status::BadRequest);
    }
    match checked_cube(folded) {
        Some(cubed) => Ok(i64_to_string(cubed as i64)),
        None => Err(Status::InternalServerError),
    }
}

/// The sled identifier endpoint.
pub struct Day1 {}

} // verus!
