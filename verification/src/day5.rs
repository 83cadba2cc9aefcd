//! Slicing a list: skip some items, take some, and cut what was taken into
//! pieces.

use crate::status::Status;
use crate::text::{least, texts_of};
use vstd::prelude::*;

verus! {

/// What the slice endpoint answers with.
#[derive(Clone, Debug)]
pub enum SliceResult {
    /// The items that were taken.
    Unsplit(Vec<String>),
    /// The items that were taken, in pieces.
    Split(Vec<Vec<String>>),
}

/// The items of a list after the first `offset`, `limit` of them at most.
pub open spec fn window<A>(items: Seq<A>, offset: int, limit: int) -> Seq<A> {
    let from = least(offset, items.len() as int);
    let to = least(from + limit, items.len() as int);
    items.subrange(from, to)
}

/// How many pieces of `size` items a list of `len` items is cut into.
pub open spec fn piece_count(len: int, size: int) -> int {
    (len + size - 1) / size
}

/// The pieces of `size` items that a list is cut into, the last one being
/// shorter where the list does not divide.
pub open spec fn pieces<A>(items: Seq<A>, size: int) -> Seq<Seq<A>> {
    Seq::new(
        piece_count(items.len() as int, size) as nat,
        |i: int| items.subrange(i * size, least((i + 1) * size, items.len() as int)),
    )
}

/// The texts that some pieces hold.
pub open spec fn piece_texts(chunks: Seq<Vec<String>>) -> Seq<Seq<Seq<char>>> {
    Seq::new(chunks.len(), |i: int| texts_of(chunks[i]@))
}

/// What an answer holds.
pub enum SliceView {
    Unsplit(Seq<Seq<char>>),
    Split(Seq<Seq<Seq<char>>>),
}

impl View for SliceResult {
    type V = SliceView;

    open spec fn view(&self) -> SliceView {
        match self {
            SliceResult::Unsplit(items) => SliceView::Unsplit(texts_of(items@)),
            SliceResult::Split(chunks) => SliceView::Split(piece_texts(chunks@)),
        }
    }
}

/// The answer of the slice endpoint. Without an offset nothing is skipped,
/// without a limit everything is taken, and without a piece size the
/// answer is not cut.
pub open spec fn slice_outcome(
    offset: Option<usize>,
    limit: Option<usize>,
    split: Option<usize>,
    data: Seq<Seq<char>>,
) -> SliceView {
    let from = match offset {
        Some(n) => n as int,
        None => 0,
    };
    let most = match limit {
        Some(n) => n as int,
        None => data.len() as int,
    };
    let taken = window(data, from, most);
    match split {
        None => SliceView::Unsplit(taken),
        Some(size) => SliceView::Split(pieces(taken, size as int)),
    }
}

/// The items of a list after the first `offset`, `limit` of them at most.
pub fn take_window(data: &Vec<String>, offset: usize, limit: usize) -> (taken: Vec<String>)
    ensures
        texts_of(taken@) == window(texts_of(data@), offset as int, limit as int),
{
    let from: usize = if offset <= data.len() {
        offset
    } else {
        data.len()
    };
    let to: usize = if limit <= data.len() - from {
        from + limit
    } else {
        data.len()
    };
    let mut taken: Vec<String> = Vec::new();
    let mut i: usize = from;
    while i < to
        invariant
            from <= i <= to <= data.len(),
            taken.len() == i - from,
            forall|j: int| 0 <= j < i - from ==> (#[trigger] taken@[j])@ == data@[from + j]@,
        decreases to - i,
    {
        taken.push(data[i].clone());
        i += 1;
    }
    assert(texts_of(taken@) =~= window(texts_of(data@), offset as int, limit as int));
    taken
}

/// Cuts a list into pieces of `size` items.
pub fn cut(items: &Vec<String>, size: usize) -> (chunks: Vec<Vec<String>>)
    requires
        size > 0,
    ensures
        piece_texts(chunks@) == pieces(texts_of(items@), size as int),
{
    let ghost texts = texts_of(items@);
    let mut chunks: Vec<Vec<String>> = Vec::new();
    let mut start: usize = 0;
    assert(chunks.len() * size == 0) by (nonlinear_arith)
        requires
            chunks.len() == 0,
    ;
    while start < items.len()
        invariant
            size > 0,
            texts == texts_of(items@),
            start <= items.len(),
            start == chunks.len() * size || (start == items.len() && chunks.len() == piece_count(
                items.len() as int,
                size as int,
            )),
            chunks.len() <= piece_count(items.len() as int, size as int),
            forall|k: int|
                0 <= k < chunks.len() ==> texts_of((#[trigger] chunks@[k])@) == texts.subrange(
                    k * size,
                    least((k + 1) * size, items.len() as int),
                ),
        decreases items.len() - start,
    {
        let end: usize = if size <= items.len() - start {
            start + size
        } else {
            items.len()
        };
        let ghost k = chunks.len() as int;
        proof {
            lemma_piece_bounds(items.len() as int, size as int, k);
        }
        let mut chunk: Vec<String> = Vec::new();
        let mut i: usize = start;
        while i < end
            invariant
                start <= i <= end <= items.len(),
                chunk.len() == i - start,
                forall|j: int| 0 <= j < i - start ==> (#[trigger] chunk@[j])@ == items@[start + j]@,
            decreases end - i,
        {
            chunk.push(items[i].clone());
            i += 1;
        }
        assert(texts_of(chunk@) =~= texts.subrange(k * size, least((k + 1) * size, items.len() as int)));
        chunks.push(chunk);
        start = end;
    }
    proof {
        lemma_piece_total(items.len() as int, size as int, chunks.len() as int);
    }
    assert(piece_texts(chunks@) =~= pieces(texts, size as int));
    chunks
}

/// While a piece starts inside the list there is a piece of that number,
/// and the piece that reaches the end of the list is the last one.
pub proof fn lemma_piece_bounds(len: int, size: int, k: int)
    requires
        size > 0,
        0 <= k,
        k * size < len,
    ensures
        k < piece_count(len, size),
        (k + 1) * size == k * size + size,
        (k + 1) * size >= len ==> k + 1 == piece_count(len, size),
{
    assert((k + 1) * size == k * size + size) by (nonlinear_arith);
    assert(k < (len + size - 1) / size) by (nonlinear_arith)
        requires
            size > 0,
            0 <= k,
            k * size < len,
    ;
    if (k + 1) * size >= len {
        assert((len + size - 1) / size <= k + 1) by (nonlinear_arith)
            requires
                size > 0,
                (k + 1) * size >= len,
        ;
    }
}

/// Pieces that cover the list exactly are as many as the list is cut into.
pub proof fn lemma_piece_total(len: int, size: int, count: int)
    requires
        size > 0,
        len >= 0,
        count >= 0,
        count * size == len || count == piece_count(len, size),
        count <= piece_count(len, size),
    ensures
        count == piece_count(len, size),
{
    if count * size == len {
        assert((len + size - 1) / size == count) by (nonlinear_arith)
            requires
                size > 0,
                count >= 0,
                count * size == len,
        ;
    }
}

/// The answer of the slice endpoint. A list cannot be cut into pieces of
/// no items: there is no answer then.
pub fn slice(
    offset: Option<usize>,
    limit: Option<usize>,
    split: Option<usize>,
    data: Vec<String>,
) -> (answer: Result<SliceResult, Status>)
    ensures
        answer is Err == (split == Some(0usize)),
        answer matches Err(status) ==> status == Status::InternalServerError,
        answer matches Ok(result) ==> result@ == slice_outcome(
            offset,
            limit,
            split,
            texts_of(data@),
        ),
{
    let from = match offset {
        Some(n) => n,
        None => 0,
    };
    let most = match limit {
        Some(n) => n,
        None => data.len(),
    };
    let taken = take_window(&data, from, most);
    match split {
        None => Ok(SliceResult::Unsplit(taken)),
        Some(size) => {
            if size == 0 {
                Err(Status::InternalServerError)
            } else {
                Ok(SliceResult::Split(cut(&taken, size)))
            }
        },
    }
}

/// The slice endpoint.
pub struct Day5 {}

} // verus!
