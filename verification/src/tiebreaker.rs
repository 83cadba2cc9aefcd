//! Letters to those on the naughty list, sent in batches.

use crate::day5::{lemma_piece_bounds, lemma_piece_total, piece_count, pieces};
use crate::text::least;
use vstd::prelude::*;
use vstd::string::StringExecFns;

verus! {

/// How many letters go out in one batch.
pub const BATCH_SIZE: usize = 10;

/// Somebody on the naughty list.
#[derive(Clone, Debug)]
pub struct NaughtyItem {
    pub name: String,
    pub email: String,
}

/// A letter to somebody on the naughty list.
#[derive(Clone, Debug)]
pub struct Response {
    pub name: String,
    pub email: String,
    pub message: String,
}

/// What a letter holds.
pub struct Letter {
    pub name: Seq<char>,
    pub email: Seq<char>,
    pub message: Seq<char>,
}

impl View for Response {
    type V = Letter;

    open spec fn view(&self) -> Letter {
        Letter { name: self.name@, email: self.email@, message: self.message@ }
    }
}

/// The message for somebody of the given name.
pub open spec fn message_for(name: Seq<char>) -> Seq<char> {
    "Dear "@ + name
        + ", it seems this year you've made it onto the Naughty List. But don't worry, everyone makes mistakes. This is a chance to learn and grow. We believe in you and can't wait to see the wonderful things you do next year! Keep shining, and remember, Santa's always cheering for you!"@
}

/// The letter for one entry of the list.
pub open spec fn letter_for(item: NaughtyItem) -> Letter {
    Letter { name: item.name@, email: item.email@, message: message_for(item.name@) }
}

/// The letters for a list, one for each entry and in the same order.
pub open spec fn letters_for(list: Seq<NaughtyItem>) -> Seq<Letter> {
    Seq::new(list.len(), |i: int| letter_for(list[i]))
}

/// What some batches hold.
pub open spec fn batches_view(batches: Seq<Vec<Response>>) -> Seq<Seq<Letter>> {
    Seq::new(batches.len(), |i: int| letters_in(batches[i]@))
}

/// What some letters hold.
pub open spec fn letters_in(letters: Seq<Response>) -> Seq<Letter> {
    Seq::new(letters.len(), |i: int| letters[i]@)
}

/// Writes the letter for one entry of the list.
pub fn write_letter(item: &NaughtyItem) -> (letter: Response)
    ensures
        letter@ == letter_for(*item),
{
    let mut message = "Dear ".to_owned();
    message.append(item.name.as_str());
    message.append(
        ", it seems this year you've made it onto the Naughty List. But don't worry, everyone makes mistakes. This is a chance to learn and grow. We believe in you and can't wait to see the wonderful things you do next year! Keep shining, and remember, Santa's always cheering for you!",
    );
    Response { name: item.name.clone(), email: item.email.clone(), message: message }
}

/// The letters for a list, in batches of `BATCH_SIZE`: every batch is full
/// but the last one, and the letters keep the order of the list.
pub fn mail_batches(naughty_list: &Vec<NaughtyItem>) -> (batches: Vec<Vec<Response>>)
    ensures
        batches_view(batches@) == pieces(letters_for(naughty_list@), BATCH_SIZE as int),
{
    let ghost letters = letters_for(naughty_list@);
    let mut batches: Vec<Vec<Response>> = Vec::new();
    let mut start: usize = 0;
    assert(batches.len() * BATCH_SIZE == 0) by (nonlinear_arith)
        requires
            batches.len() == 0,
    ;
    while start < naughty_list.len()
        invariant
            letters == letters_for(naughty_list@),
            start <= naughty_list.len(),
            start == batches.len() * BATCH_SIZE || (start == naughty_list.len() && batches.len()
                == piece_count(naughty_list.len() as int, BATCH_SIZE as int)),
            batches.len() <= piece_count(naughty_list.len() as int, BATCH_SIZE as int),
            forall|k: int|
                0 <= k < batches.len() ==> letters_in((#[trigger] batches@[k])@)
                    == letters.subrange(
                    k * BATCH_SIZE,
                    least((k + 1) * BATCH_SIZE, naughty_list.len() as int),
                ),
        decreases naughty_list.len() - start,
    {
        let end: usize = if BATCH_SIZE <= naughty_list.len() - start {
            start + BATCH_SIZE
        } else {
            naughty_list.len()
        };
        let ghost k = batches.len() as int;
        proof {
            lemma_piece_bounds(naughty_list.len() as int, BATCH_SIZE as int, k);
        }
        let mut batch: Vec<Response> = Vec::new();
        let mut i: usize = start;
        while i < end
            invariant
                start <= i <= end <= naughty_list.len(),
                batch.len() == i - start,
                forall|j: int|
                    0 <= j < i - start ==> (#[trigger] batch@[j])@ == letter_for(
                        naughty_list@[start + j],
                    ),
            decreases end - i,
        {
            batch.push(write_letter(&naughty_list[i]));
            i += 1;
        }
        assert(letters_in(batch@) =~= letters.subrange(
            k * BATCH_SIZE,
            least((k + 1) * BATCH_SIZE, naughty_list.len() as int),
        ));
        batches.push(batch);
        start = end;
    }
    proof {
        lemma_piece_total(naughty_list.len() as int, BATCH_SIZE as int, batches.len() as int);
    }
    assert(batches_view(batches@) =~= pieces(letters, BATCH_SIZE as int));
    batches
}

/// The naughty list endpoint.
pub struct Tiebreaker {}

} // verus!
