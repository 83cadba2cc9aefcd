//! Archives: how many files one holds and how large they are, and the
//! search through a repository's history for the commit that holds the
//! cookie.
//!
//! Reading the upload and opening the repository are the caller's work. The
//! search is driven from outside: the caller walks commits and trees and
//! asks here, step by step, what to look at and what the find is.

use crate::day7::utf8_text;
use crate::status::{answer_view, Status};
use crate::text::{
    chars_of, contains, contains_text, decimal, digits_of, lemma_filter_step, same_text, string_of,
    texts_of,
};
use vstd::prelude::*;
use vstd::string::StringExecFns;
use vstd::utf8::{decode_utf8, valid_utf8};

verus! {

/// What reading one entry of an archive gave.
#[derive(Clone, Copy, Debug, PartialEq, Eq, Structural)]
pub enum EntryRead {
    /// The entry could not be read.
    Broken,
    /// The entry was read, its size could not.
    NoSize,
    /// The entry was read, and this is the size of its file.
    Size(u64),
}

/// The entries of the tar archive that some bytes hold, in order, or
/// `None` where the archive cannot be walked at all.
pub uninterp spec fn archive_entries(bytes: Seq<u8>) -> Option<Seq<EntryRead>>;

/// What the result of reading an archive holds.
pub open spec fn entries_view(read: Option<Vec<EntryRead>>) -> Option<Seq<EntryRead>> {
    match read {
        Some(entries) => Some(entries@),
        None => None,
    }
}

/// What reading one entry gave, from whether the entry was read and, if
/// so, whether its size was.
pub fn entry_read(size: Option<Option<u64>>) -> (read: EntryRead)
    ensures
        read == match size {
            None => EntryRead::Broken,
            Some(None) => EntryRead::NoSize,
            Some(Some(size)) => EntryRead::Size(size),
        },
{
    match size {
        None => EntryRead::Broken,
        Some(None) => EntryRead::NoSize,
        Some(Some(size)) => EntryRead::Size(size),
    }
}

/// The tar crate's `Archive::entries` on the bytes, and for each entry
/// `Header::size`. An entry that fails and a size that fails are told
/// apart. The outcome depends on the bytes alone and is named, not spelt
/// out.
#[verifier::external_body]
pub(crate) fn read_entries(bytes: Vec<u8>) -> (read: Option<Vec<EntryRead>>)
    ensures
        entries_view(read) == archive_entries(bytes@),
{
    let mut archive = tar::Archive::new(std::io::Cursor::new(bytes));
    match archive.entries() {
        Ok(entries) => Some(
            entries.map(|e| entry_read(e.ok().map(|file| file.header().size().ok()))).collect(),
        ),
        Err(_) => None,
    }
}

/// Whether an entry was read.
pub open spec fn was_read(entry: EntryRead) -> bool {
    entry != EntryRead::Broken
}

/// How many entries were read.
pub open spec fn file_count(entries: Seq<EntryRead>) -> nat {
    entries.filter(|e: EntryRead| was_read(e)).len()
}

/// The size that an entry counts for: its file's size where that is known,
/// nothing otherwise.
pub open spec fn size_of(entry: EntryRead) -> nat {
    match entry {
        EntryRead::Size(size) => size as nat,
        _ => 0,
    }
}

/// The sizes of the first `n` entries together.
pub open spec fn total_size(entries: Seq<EntryRead>, n: int) -> nat
    decreases n,
{
    if n <= 0 {
        0
    } else {
        total_size(entries, n - 1) + size_of(entries[n - 1])
    }
}

/// The answer to how many files an archive holds: the number of entries
/// that were read, in decimal. An archive that cannot be walked is
/// rejected.
pub open spec fn files_outcome(read: Option<Seq<EntryRead>>) -> Result<Seq<char>, Status> {
    match read {
        Some(entries) => Ok(decimal(file_count(entries))),
        None => Err(Status::BadRequest),
    }
}

/// The answer to how large the files of an archive are together, in
/// decimal. An archive that cannot be walked is rejected; a sum beyond 64
/// bits cannot be worked on.
pub open spec fn sizes_outcome(read: Option<Seq<EntryRead>>) -> Result<Seq<char>, Status> {
    match read {
        Some(entries) => if total_size(entries, entries.len() as int) <= u64::MAX {
            Ok(decimal(total_size(entries, entries.len() as int)))
        } else {
            Err(Status::InternalServerError)
        },
        None => Err(Status::BadRequest),
    }
}

proof fn lemma_total_size_grows(entries: Seq<EntryRead>, i: int, j: int)
    requires
        0 <= i <= j,
    ensures
        total_size(entries, i) <= total_size(entries, j),
    decreases j - i,
{
    if i < j {
        lemma_total_size_grows(entries, i, j - 1);
    }
}

/// Counts the entries that were read.
pub fn count_files(read: Option<Vec<EntryRead>>) -> (answer: Result<String, Status>)
    ensures
        answer_view(answer) == files_outcome(entries_view(read)),
{
    let entries = match read {
        Some(entries) => entries,
        None => {
            return Err(Status::BadRequest);
        },
    };
    let mut count: usize = 0;
    let mut i: usize = 0;
    while i < entries.len()
        invariant
            i <= entries.len(),
            count <= i,
            count == file_count(entries@.take(i as int)),
        decreases entries.len() - i,
    {
        proof {
            lemma_filter_step(entries@, |e: EntryRead| was_read(e), i as int);
        }
        match entries[i] {
            EntryRead::Broken => {},
            _ => {
                count += 1;
            },
        }
        i += 1;
    }
    assert(entries@.take(entries.len() as int) == entries@);
    Ok(string_of(&digits_of(count as u128)))
}

/// Adds up the sizes of the entries.
pub fn sum_sizes(read: Option<Vec<EntryRead>>) -> (answer: Result<String, Status>)
    ensures
        answer_view(answer) == sizes_outcome(entries_view(read)),
{
    let entries = match read {
        Some(entries) => entries,
        None => {
            return Err(Status::BadRequest);
        },
    };
    let mut total: u64 = 0;
    let mut i: usize = 0;
    while i < entries.len()
        invariant
            i <= entries.len(),
            entries_view(read) == Some(entries@),
            total == total_size(entries@, i as int),
        decreases entries.len() - i,
    {
        let size: u64 = match entries[i] {
            EntryRead::Size(size) => size,
            _ => 0,
        };
        if size > u64::MAX - total {
            proof {
                lemma_total_size_grows(entries@, i + 1, entries.len() as int);
            }
            return Err(Status::InternalServerError);
        }
        total = total + size;
        i += 1;
    }
    Ok(string_of(&digits_of(total as u128)))
}

/// What a tree walk wants to know next about an entry.
#[derive(Clone, Copy, Debug, PartialEq, Eq, Structural)]
pub enum Want {
    /// Nothing: the walk goes on.
    Skip,
    /// What the entry holds.
    Content,
}

/// Whether a tree walk goes on.
#[derive(Clone, Copy, Debug, PartialEq, Eq, Structural)]
pub enum Walk {
    Continue,
    Abort,
}

/// An entry of a tree is worth opening when it is named `santa.txt`.
pub open spec fn is_searched_name(name: Option<Seq<char>>) -> bool {
    name == Some("santa.txt"@)
}

/// The content of an entry holds the cookie when the entry is a file whose
/// bytes are text with the word `COOKIE` in it.
pub open spec fn holds_cookie(blob: Option<Seq<u8>>) -> bool {
    blob matches Some(bytes) && valid_utf8(bytes) && contains_text(decode_utf8(bytes), "COOKIE"@)
}

/// What is wanted of an entry with the given name, if it has one.
pub fn want_of(name: Option<&str>) -> (want: Want)
    ensures
        want == if is_searched_name(
            match name {
                Some(text) => Some(text@),
                None => None,
            },
        ) {
            Want::Content
        } else {
            Want::Skip
        },
{
    match name {
        Some(text) => if same_text(text, "santa.txt") {
            Want::Content
        } else {
            Want::Skip
        },
        None => Want::Skip,
    }
}

/// Whether the content of an entry holds the cookie. `None` stands for an
/// entry that is no file.
pub fn is_cookie(blob: Option<Vec<u8>>) -> (found: bool)
    ensures
        found == holds_cookie(
            match blob {
                Some(bytes) => Some(bytes@),
                None => None,
            },
        ),
{
    match blob {
        None => false,
        Some(bytes) => match utf8_text(bytes) {
            None => false,
            Some(text) => contains(&chars_of(text.as_str()), &chars_of("COOKIE")),
        },
    }
}

/// How a tree walk goes on after the content of a searched entry has been
/// looked at: it stops at the cookie.
pub fn walk_after(found: bool) -> (walk: Walk)
    ensures
        walk == if found {
            Walk::Abort
        } else {
            Walk::Continue
        },
{
    if found {
        Walk::Abort
    } else {
        Walk::Continue
    }
}

/// The answer for the commit that holds the cookie: who wrote it, or
/// `Unknown Author`, then a space and the commit's identifier.
pub open spec fn commit_text(author: Option<Seq<char>>, id: Seq<char>) -> Seq<char> {
    (match author {
        Some(name) => name,
        None => "Unknown Author"@,
    }) + " "@ + id
}

/// The answer for the commit that holds the cookie.
pub fn commit_answer(author: Option<&str>, id: &str) -> (answer: String)
    ensures
        answer@ == commit_text(
            match author {
                Some(name) => Some(name@),
                None => None,
            },
            id@,
        ),
{
    let mut answer = match author {
        Some(name) => name.to_owned(),
        None => "Unknown Author".to_owned(),
    };
    answer.append(" ");
    answer.append(id);
    answer
}

/// Some texts in the opposite order.
pub open spec fn backwards(texts: Seq<Seq<char>>) -> Seq<Seq<char>> {
    Seq::new(texts.len(), |i: int| texts[texts.len() - 1 - i])
}

/// The search through a history, depth first: the commits that are still
/// to be looked at, the next one last. A commit is looked at before its
/// parents, a first parent and all that lies behind it before a second
/// one.
pub struct Hunt {
    pending: Vec<String>,
}

impl View for Hunt {
    type V = Seq<Seq<char>>;

    closed spec fn view(&self) -> Seq<Seq<char>> {
        texts_of(self.pending@)
    }
}

impl Hunt {
    /// A search that starts at the tip of a branch.
    pub fn begin(tip: String) -> (hunt: Hunt)
        ensures
            hunt@ == seq![tip@],
    {
        let mut pending: Vec<String> = Vec::new();
        pending.push(tip);
        assert(texts_of(pending@) =~= seq![tip@]);
        Hunt { pending: pending }
    }

    /// The commit to look at next, or `None` when the history is searched
    /// through.
    pub fn next(&mut self) -> (commit: Option<String>)
        ensures
            old(self)@.len() == 0 ==> commit is None && final(self)@ == old(self)@,
            old(self)@.len() > 0 ==> (commit matches Some(id) && id@ == old(self)@.last()),
            old(self)@.len() > 0 ==> final(self)@ == old(self)@.drop_last(),
    {
        let ghost before = self.pending@;
        let commit = self.pending.pop();
        proof {
            if before.len() > 0 {
                assert(texts_of(self.pending@) =~= texts_of(before).drop_last());
            }
        }
        commit
    }

    /// Takes note that the commit that was looked at does not hold the
    /// cookie: its parents are looked at next, the first one first, before
    /// anything that was pending.
    pub fn missed(&mut self, parents: Vec<String>)
        ensures
            final(self)@ == old(self)@ + backwards(texts_of(parents@)),
    {
        let ghost before = self.pending@;
        let mut left: usize = parents.len();
        while left > 0
            invariant
                left <= parents.len(),
                self.pending@.len() == before.len() + parents.len() - left,
                forall|i: int| 0 <= i < before.len() ==> self.pending@[i] == before[i],
                forall|j: int|
                    before.len() <= j < self.pending@.len() ==> (#[trigger] self.pending@[j])@
                        == parents@[parents.len() - 1 - (j - before.len())]@,
            decreases left,
        {
            left -= 1;
            self.pending.push(parents[left].clone());
        }
        assert(texts_of(self.pending@) =~= texts_of(before) + backwards(texts_of(parents@)));
    }
}

/// A history as the search meets it: a commit, whether it holds the
/// cookie, and the history behind each of its parents.
pub struct History {
    pub id: Seq<char>,
    pub holds: bool,
    pub parents: Seq<History>,
}

/// The commits of a history in the order in which a search that goes
/// through all of it looks at them: the commit itself, then everything
/// behind its first parent, then everything behind its second, and so on.
pub open spec fn visits(history: History) -> Seq<Seq<char>>
    decreases history, history.parents.len() + 1,
{
    seq![history.id] + visits_from(history, 0)
}

/// The commits behind the parents of a commit, from the parent `first` on.
pub open spec fn visits_from(history: History, first: nat) -> Seq<Seq<char>>
    decreases history, history.parents.len() - first,
{
    if first >= history.parents.len() {
        Seq::empty()
    } else {
        visits(history.parents[first as int]) + visits_from(history, first + 1)
    }
}

/// The commits that a search with the given pending histories looks at,
/// in order: the pending history that stands last comes first.
pub open spec fn pending_visits(pending: Seq<History>) -> Seq<Seq<char>>
    decreases pending.len(),
{
    if pending.len() == 0 {
        Seq::empty()
    } else {
        visits(pending.last()) + pending_visits(pending.drop_last())
    }
}

/// Some histories in the opposite order.
pub open spec fn turned(histories: Seq<History>) -> Seq<History> {
    Seq::new(histories.len(), |i: int| histories[histories.len() - 1 - i])
}

proof fn lemma_pending_parents(base: Seq<History>, history: History, first: nat)
    requires
        first <= history.parents.len(),
    ensures
        pending_visits(
            base + turned(history.parents.subrange(first as int, history.parents.len() as int)),
        ) == visits_from(history, first) + pending_visits(base),
    decreases history.parents.len() - first,
{
    let len = history.parents.len() as int;
    let rest = history.parents.subrange(first as int, len);
    if first == len {
        assert(base + turned(rest) =~= base);
    } else {
        let shorter = history.parents.subrange(first as int + 1, len);
        let stack = base + turned(rest);
        assert(stack.last() == history.parents[first as int]);
        assert(stack.drop_last() =~= base + turned(shorter));
        lemma_pending_parents(base, history, (first + 1) as nat);
        assert(pending_visits(stack) == visits(history.parents[first as int]) + pending_visits(
            base + turned(shorter),
        ));
        assert(visits(history.parents[first as int]) + (visits_from(
            history,
            (first + 1) as nat,
        ) + pending_visits(base)) =~= visits_from(history, first) + pending_visits(base));
    }
}

/// The search goes through a history depth first. Taking the last pending
/// history and putting the histories of its parents in its place, the
/// first parent last, leaves the search with the same commits to look at,
/// in the same order, but for the commit that was taken.
pub proof fn law_hunt_goes_depth_first(pending: Seq<History>)
    requires
        pending.len() > 0,
    ensures
        pending_visits(pending) == seq![pending.last().id] + pending_visits(
            pending.drop_last() + turned(pending.last().parents),
        ),
{
    let history = pending.last();
    lemma_pending_parents(pending.drop_last(), history, 0);
    assert(history.parents.subrange(0, history.parents.len() as int) =~= history.parents);
    assert(visits(history) + pending_visits(pending.drop_last()) =~= seq![history.id] + (
    visits_from(history, 0) + pending_visits(pending.drop_last())));
}

/// The answer when the whole history has been searched through in vain.
pub fn nothing_found() -> (answer: String)
    ensures
        answer@ == Seq::<char>::empty(),
{
    String::new()
}

/// The archive endpoints.
pub struct Day20 {}

impl Day20 {
    /// How many files an uploaded archive holds.
    pub fn archive_files(file: Vec<u8>) -> (answer: Result<String, Status>)
        ensures
            answer_view(answer) == files_outcome(archive_entries(file@)),
    {
        count_files(read_entries(file))
    }

    /// How large the files of an uploaded archive are together.
    pub fn archive_files_size(file: Vec<u8>) -> (answer: Result<String, Status>)
        ensures
            answer_view(answer) == sizes_outcome(archive_entries(file@)),
    {
        sum_sizes(read_entries(file))
    }
}

} // verus!
