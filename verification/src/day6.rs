//! Counting elves and shelves in a text.

use crate::status::Status;
use crate::text::{chars_of, found_at, occurs_at};
use vstd::prelude::*;

verus! {

/// How often `part` stands in `text`, reading from the left and going on
/// behind each occurrence, so that no two counted occurrences overlap.
pub open spec fn match_count(text: Seq<char>, part: Seq<char>) -> nat
    recommends
        part.len() > 0,
    decreases text.len(),
{
    if part.len() == 0 || text.len() < part.len() {
        0
    } else if occurs_at(text, part, 0) {
        1 + match_count(text.skip(part.len() as int), part)
    } else {
        match_count(text.skip(1), part)
    }
}

/// Counts the occurrences of `part` in `text` that do not overlap.
pub fn count_matches(text: &Vec<char>, part: &Vec<char>) -> (count: usize)
    requires
        part.len() > 0,
    ensures
        count == match_count(text@, part@),
{
    let mut count: usize = 0;
    let mut i: usize = 0;
    assert(text@.skip(0) == text@);
    while i < text.len() && part.len() <= text.len() - i
        invariant
            part.len() > 0,
            i <= text.len(),
            count <= i,
            match_count(text@, part@) == count + match_count(text@.skip(i as int), part@),
        decreases text.len() - i,
    {
        let ghost rest = text@.skip(i as int);
        if found_at(text, part, i) {
            proof {
                assert(rest.subrange(0, part.len() as int) == text@.subrange(
                    i as int,
                    i + part.len(),
                ));
                assert(rest.skip(part.len() as int) == text@.skip(i + part.len()));
            }
            count += 1;
            i += part.len();
        } else {
            proof {
                assert(rest.subrange(0, part.len() as int) == text@.subrange(
                    i as int,
                    i + part.len(),
                ));
                assert(rest.skip(1) == text@.skip(i + 1));
            }
            i += 1;
        }
    }
    count
}

/// What was counted in a text.
#[derive(Clone, Copy, Debug, PartialEq, Eq, Structural)]
pub struct ElfCount {
    /// Occurrences of `elf`.
    pub elf: usize,
    /// Occurrences of `elf on a shelf`, and of `shelf on a shelf` once
    /// more.
    pub elf_on_a_shelf: usize,
    /// Occurrences of `shelf` beyond those.
    pub shelf_with_no_elf_on_it: usize,
}

/// The counts of a text. There are none where the shelves with an elf
/// outnumber the shelves.
pub open spec fn elf_counts(text: Seq<char>) -> Option<ElfCount> {
    let elves = match_count(text, "elf"@);
    let seated = match_count(text, "elf on a shelf"@) + match_count(text, "shelf on a shelf"@);
    let shelves = match_count(text, "shelf"@);
    if seated <= shelves {
        Some(
            ElfCount {
                elf: elves as usize,
                elf_on_a_shelf: seated as usize,
                shelf_with_no_elf_on_it: (shelves - seated) as usize,
            },
        )
    } else {
        None
    }
}

/// Counts elves and shelves. Where the shelves with an elf outnumber the
/// shelves there is no answer.
pub fn count_elfs(text: &str) -> (answer: Result<ElfCount, Status>)
    ensures
        answer is Ok == elf_counts(text@) is Some,
        answer matches Ok(counts) ==> Some(counts) == elf_counts(text@),
        answer matches Err(status) ==> status == Status::InternalServerError,
{
    proof {
        reveal_strlit("elf");
        reveal_strlit("elf on a shelf");
        reveal_strlit("shelf on a shelf");
        reveal_strlit("shelf");
        assert("elf"@.len() == 3);
        assert("elf on a shelf"@.len() == 14);
        assert("shelf on a shelf"@.len() == 16);
        assert("shelf"@.len() == 5);
    }
    let chars = chars_of(text);
    let elves = count_matches(&chars, &chars_of("elf"));
    let seated_elves = count_matches(&chars, &chars_of("elf on a shelf"));
    let seated_shelves = count_matches(&chars, &chars_of("shelf on a shelf"));
    let shelves = count_matches(&chars, &chars_of("shelf"));
    if seated_elves > shelves || seated_shelves > shelves - seated_elves {
        return Err(Status::InternalServerError);
    }
    let seated = seated_elves + seated_shelves;
    Ok(ElfCount { elf: elves, elf_on_a_shelf: seated, shelf_with_no_elf_on_it: shelves - seated })
}

/// The elf counting endpoint.
pub struct Day6 {}

} // verus!
