//! Cells of the globe: the number of a cell from its binary writing, and
//! the country name for the answer of the country lookup.
//!
//! Where a cell lies is worked out in floating point by the caller, and so
//! is the region that holds the place; what is answered is decided here.

use crate::status::{answer_view, Status};
use crate::text::{chars_of, same_text, text_view};
use vstd::prelude::*;

verus! {

/// Whether a character is a binary digit.
pub open spec fn is_bit(c: char) -> bool {
    c == '0' || c == '1'
}

/// The number that some binary digits write, the most significant first.
pub open spec fn bits_value(text: Seq<char>) -> nat
    decreases text.len(),
{
    if text.len() == 0 {
        0
    } else {
        2 * bits_value(text.drop_last()) + if text.last() == '1' {
            1nat
        } else {
            0nat
        }
    }
}

/// The unsigned number of 64 bits that a text writes in binary: binary
/// digits, one at least, with `+` allowed in front of them. Any other text
/// writes no such number, and so does one whose value is too large.
pub open spec fn binary_of(text: Seq<char>) -> Option<u64> {
    let digits = unsigned_part(text);
    if digits.len() > 0 && all_bits(digits) && bits_value(digits) <= u64::MAX {
        Some(bits_value(digits) as u64)
    } else {
        None
    }
}

/// A text without the `+` that may stand in front of it.
pub open spec fn unsigned_part(text: Seq<char>) -> Seq<char> {
    if text.len() > 0 && text[0] == '+' {
        text.skip(1)
    } else {
        text
    }
}

/// Every character of the text is a binary digit.
pub open spec fn all_bits(text: Seq<char>) -> bool {
    forall|i: int| 0 <= i < text.len() ==> is_bit(#[trigger] text[i])
}

proof fn lemma_bits_value_grows(text: Seq<char>, i: int, j: int)
    requires
        0 <= i <= j <= text.len(),
    ensures
        bits_value(text.take(i)) <= bits_value(text.take(j)),
    decreases j - i,
{
    if i < j {
        lemma_bits_value_grows(text, i, j - 1);
        assert(text.take(j).drop_last() == text.take(j - 1));
    }
}

/// Reads an unsigned number of 64 bits written in binary.
pub fn parse_binary(text: &Vec<char>) -> (value: Option<u64>)
    ensures
        value == binary_of(text@),
{
    let from: usize = if text.len() > 0 && text[0] == '+' {
        1
    } else {
        0
    };
    if text.len() == from {
        return None;
    }
    let ghost digits = text@.skip(from as int);
    assert(text@.skip(0) == text@);
    let mut value: u64 = 0;
    let mut i: usize = from;
    while i < text.len()
        invariant
            from <= i <= text.len(),
            from < text.len(),
            from == if text@[0] == '+' {
                1int
            } else {
                0int
            },
            digits == text@.skip(from as int),
            digits == unsigned_part(text@),
            all_bits(digits.take(i - from)),
            value == bits_value(digits.take(i - from)),
        decreases text.len() - i,
    {
        let c = text[i];
        assert(digits[i - from] == c);
        assert(digits.take(i - from + 1).drop_last() == digits.take(i - from));
        if c != '0' && c != '1' {
            assert(!is_bit(digits[i - from]));
            return None;
        }
        let bit: u64 = if c == '1' {
            1
        } else {
            0
        };
        assert forall|k: int| 0 <= k < i - from + 1 implies is_bit(
            #[trigger] digits.take(i - from + 1)[k],
        ) by {
            if k < i - from {
                assert(digits.take(i - from)[k] == digits[k]);
            }
        }
        if value > (u64::MAX - bit) / 2 {
            proof {
                assert(bits_value(digits.take(i - from + 1)) == 2 * value + bit);
                lemma_bits_value_grows(digits, i - from + 1, digits.len() as int);
                assert(digits.take(digits.len() as int) == digits);
                assert(bits_value(digits) > u64::MAX);
            }
            return None;
        }
        value = 2 * value + bit;
        i += 1;
    }
    assert(digits.take(digits.len() as int) == digits);
    Some(value)
}

/// The number of the cell that a path segment writes in binary. A segment
/// that writes none is rejected.
pub fn cell_of(binary: &str) -> (cell: Result<u64, Status>)
    ensures
        cell == match binary_of(binary@) {
            Some(id) => Ok::<u64, Status>(id),
            None => Err(Status::BadRequest),
        },
{
    match parse_binary(&chars_of(binary)) {
        Some(id) => Ok(id),
        None => Err(Status::BadRequest),
    }
}

/// What looking up the place of a cell gave.
#[derive(Clone, Debug)]
pub enum Lookup {
    /// The cell lies at no place that the boundaries know as a position.
    OffTheMap,
    /// The place lies in no region.
    Nowhere,
    /// The place lies in regions, and this is the code of the last one.
    Region(String),
}

/// The English short name of the country with the given two-letter code,
/// if there is such a country.
pub uninterp spec fn country_name_of(code: Seq<char>) -> Option<Seq<char>>;

/// isocountry's `CountryCode::for_alpha2` on the code and `name` on the
/// country. A code that is none gives `None`. The name is named, not spelt
/// out.
#[verifier::external_body]
pub(crate) fn alpha2_name(code: &str) -> (name: Option<String>)
    ensures
        text_view(name) == country_name_of(code@),
{
    match isocountry::CountryCode::for_alpha2(code) {
        Ok(country) => Some(country.name().to_string()),
        Err(_) => None,
    }
}

/// The name under which a country is shown: its short name, but for
/// Brunei, which is shown by that one word.
pub open spec fn shown_name(name: Seq<char>) -> Seq<char> {
    if name == "Brunei Darussalam"@ {
        "Brunei"@
    } else {
        name
    }
}

/// The answer for the code of the region that was found, and for none
/// found: no region is not found, a code that is no country's is rejected.
pub open spec fn country_outcome(code: Option<Seq<char>>, name: Option<Seq<char>>) -> Result<
    Seq<char>,
    Status,
> {
    match code {
        None => Err(Status::NotFound),
        Some(_) => match name {
            None => Err(Status::BadRequest),
            Some(name) => Ok(shown_name(name)),
        },
    }
}

/// The name under which a country is shown.
pub fn display_name(name: String) -> (shown: String)
    ensures
        shown@ == shown_name(name@),
{
    if same_text(name.as_str(), "Brunei Darussalam") {
        "Brunei".to_owned()
    } else {
        name
    }
}

/// The answer for a lookup that found a region, and the name that goes
/// with the region's code, if any.
pub fn country_answer(found: bool, name: Option<String>) -> (answer: Result<String, Status>)
    ensures
        answer_view(answer) == if found {
            match name {
                Some(name) => Ok(shown_name(name@)),
                None => Err(Status::BadRequest),
            }
        } else {
            Err::<Seq<char>, Status>(Status::NotFound)
        },
{
    if !found {
        return Err(Status::NotFound);
    }
    match name {
        Some(name) => Ok(display_name(name)),
        None => Err(Status::BadRequest),
    }
}

/// The answer of the country lookup. A cell off the map is rejected, a
/// place in no region is not found, and a region is answered with the name
/// of the country that has its code.
pub fn country(lookup: Lookup) -> (answer: Result<String, Status>)
    ensures
        answer_view(answer) == match lookup {
            Lookup::OffTheMap => Err(Status::BadRequest),
            Lookup::Nowhere => country_outcome(None, None),
            Lookup::Region(code) => country_outcome(Some(code@), country_name_of(code@)),
        },
{
    match lookup {
        Lookup::OffTheMap => Err(Status::BadRequest),
        Lookup::Nowhere => country_answer(false, None),
        Lookup::Region(code) => country_answer(true, alpha2_name(code.as_str())),
    }
}

} // verus!
