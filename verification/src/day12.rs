//! Time stamps and sortable identifiers: the elapsed time since a key was
//! saved, identifiers written as UUIDs, and the dates at which identifiers
//! were made.
//!
//! An identifier is held as its 128 bits: the upper 48 are the time at which
//! it was made, in milliseconds since 1970, the lower 80 are random. A time
//! is held as milliseconds since 1970.

use crate::status::{answer_view, Status};
use crate::text::{decimal, digits_of, lemma_filter_step, string_of, texts_of};
use std::time::{Duration, SystemTime, UNIX_EPOCH};
use vstd::prelude::*;

verus! {

/// The number of random bits of an identifier.
pub const RANDOM_BITS: u32 = 80;

/// The times that an identifier can hold are below this many milliseconds.
pub const STAMP_LIMIT: u64 = 0x1_0000_0000_0000;

/// A day of the week.
#[derive(Clone, Copy, Debug, PartialEq, Eq, Structural)]
pub enum Weekday {
    Mon,
    Tue,
    Wed,
    Thu,
    Fri,
    Sat,
    Sun,
}

/// The identifier that a text writes in Crockford's base 32, if it writes
/// one.
pub uninterp spec fn ulid_value(text: Seq<char>) -> Option<u128>;

/// The text of the UUID with the given 128 bits.
pub uninterp spec fn uuid_text(value: u128) -> Seq<char>;

/// The month, from 1 to 12, of a time in UTC.
pub uninterp spec fn utc_month(millis: u64) -> u32;

/// The day of the month, from 1, of a time in UTC.
pub uninterp spec fn utc_day(millis: u64) -> u32;

/// The day of the week of a time in UTC.
pub uninterp spec fn utc_weekday(millis: u64) -> Weekday;

/// `ulid::Ulid::from_string`, which decodes 26 characters of Crockford's
/// base 32 into 128 bits, and the identifier's public field. A text that
/// does not decode gives `None`. The value is named, not spelt out.
#[verifier::external_body]
pub(crate) fn decode_ulid(text: &str) -> (value: Option<u128>)
    ensures
        value == ulid_value(text@),
{
    match ulid::Ulid::from_string(text) {
        Ok(id) => Some(id.0),
        Err(_) => None,
    }
}

/// `uuid::Uuid::from_bytes` on the identifier's 16 bytes, most significant
/// first, and the UUID's `to_string`. The text is named, not spelt out.
#[verifier::external_body]
pub(crate) fn encode_uuid(value: u128) -> (text: String)
    ensures
        text@ == uuid_text(value),
{
    uuid::Uuid::from_bytes(value.to_be_bytes()).to_string()
}

/// chrono's `Datelike::month` on the `DateTime<Utc>` of a time. The
/// conversion is in range for every time that an identifier can hold. The
/// month is named, not spelt out.
#[verifier::external_body]
pub(crate) fn month_of(millis: u64) -> (month: u32)
    requires
        millis < STAMP_LIMIT,
    ensures
        month == utc_month(millis),
{
    let time: chrono::DateTime<chrono::Utc> = (UNIX_EPOCH + Duration::from_millis(millis)).into();
    chrono::Datelike::month(&time)
}

/// chrono's `Datelike::day` on the `DateTime<Utc>` of a time. The
/// conversion is in range for every time that an identifier can hold. The
/// day is named, not spelt out.
#[verifier::external_body]
pub(crate) fn day_of(millis: u64) -> (day: u32)
    requires
        millis < STAMP_LIMIT,
    ensures
        day == utc_day(millis),
{
    let time: chrono::DateTime<chrono::Utc> = (UNIX_EPOCH + Duration::from_millis(millis)).into();
    chrono::Datelike::day(&time)
}

/// chrono's `Datelike::weekday` on the `DateTime<Utc>` of a time, variant
/// for variant. The conversion is in range for every time that an
/// identifier can hold. The day is named, not spelt out.
#[verifier::external_body]
pub(crate) fn weekday_of(millis: u64) -> (day: Weekday)
    requires
        millis < STAMP_LIMIT,
    ensures
        day == utc_weekday(millis),
{
    let time: chrono::DateTime<chrono::Utc> = (UNIX_EPOCH + Duration::from_millis(millis)).into();
    match chrono::Datelike::weekday(&time) {
        chrono::Weekday::Mon => Weekday::Mon,
        chrono::Weekday::Tue => Weekday::Tue,
        chrono::Weekday::Wed => Weekday::Wed,
        chrono::Weekday::Thu => Weekday::Thu,
        chrono::Weekday::Fri => Weekday::Fri,
        chrono::Weekday::Sat => Weekday::Sat,
        chrono::Weekday::Sun => Weekday::Sun,
    }
}

/// `SystemTime::now` of std, as whole milliseconds since 1970, or `None`
/// while the clock stands before 1970. Nothing is claimed of the time.
#[verifier::external_body]
pub(crate) fn now_millis() -> Option<u128> {
    match SystemTime::now().duration_since(UNIX_EPOCH) {
        Ok(elapsed) => Some(elapsed.as_millis()),
        Err(_) => None,
    }
}

/// The time at which an identifier was made, in milliseconds since 1970.
pub open spec fn stamp_of(value: u128) -> u64 {
    (value >> 80) as u64
}

/// The random part of an identifier.
pub open spec fn random_of(value: u128) -> u128 {
    value & 0xffff_ffff_ffff_ffff_ffff
}

/// The time at which an identifier was made.
pub fn timestamp_ms(value: u128) -> (millis: u64)
    ensures
        millis == stamp_of(value),
        millis < STAMP_LIMIT,
{
    assert((value >> 80) < 0x1_0000_0000_0000u128) by (bit_vector);
    (value >> 80) as u64
}

/// The random part of an identifier.
pub fn random(value: u128) -> (bits: u128)
    ensures
        bits == random_of(value),
{
    value & 0xffff_ffff_ffff_ffff_ffff
}

/// The number of a day of the week, Monday being 0.
pub open spec fn weekday_number(day: Weekday) -> u8 {
    match day {
        Weekday::Mon => 0,
        Weekday::Tue => 1,
        Weekday::Wed => 2,
        Weekday::Thu => 3,
        Weekday::Fri => 4,
        Weekday::Sat => 5,
        Weekday::Sun => 6,
    }
}

/// Whether a date is the 24th of December.
pub fn is_christmas_eve_date(month: u32, day: u32) -> (eve: bool)
    ensures
        eve == (month == 12 && day == 24),
{
    month == 12 && day == 24
}

/// Whether a day of the week has the given number, Monday being 0.
pub fn is_weekday_number(day: Weekday, weekday: u8) -> (same: bool)
    ensures
        same == (weekday_number(day) == weekday),
{
    match day {
        Weekday::Mon => weekday == 0,
        Weekday::Tue => weekday == 1,
        Weekday::Wed => weekday == 2,
        Weekday::Thu => weekday == 3,
        Weekday::Fri => weekday == 4,
        Weekday::Sat => weekday == 5,
        Weekday::Sun => weekday == 6,
    }
}

/// A time lies after the present one. While the clock stands before 1970
/// every time does.
pub open spec fn later_than(millis: u64, now: Option<u128>) -> bool {
    match now {
        Some(present) => millis > present,
        None => true,
    }
}

/// Whether a time lies after the present one, given in whole milliseconds.
pub fn is_later_than(millis: u64, now: Option<u128>) -> (later: bool)
    ensures
        later == later_than(millis, now),
{
    match now {
        Some(present) => millis as u128 > present,
        None => true,
    }
}

/// The identifiers that some texts write, where each text writes one.
pub open spec fn ulids_of(texts: Seq<Seq<char>>) -> Option<Seq<u128>> {
    if forall|i: int| 0 <= i < texts.len() ==> ulid_value(#[trigger] texts[i]) is Some {
        Some(Seq::new(texts.len(), |i: int| ulid_value(texts[i])->0))
    } else {
        None
    }
}

/// The UUIDs of some identifiers, the last identifier first.
pub open spec fn uuids_of(values: Seq<u128>) -> Seq<Seq<char>> {
    Seq::new(values.len(), |i: int| uuid_text(values[values.len() - 1 - i]))
}

/// Writes identifiers as UUIDs, the last identifier first.
pub fn uuids_in_reverse(values: &Vec<u128>) -> (uuids: Vec<String>)
    ensures
        texts_of(uuids@) == uuids_of(values@),
{
    let mut uuids: Vec<String> = Vec::new();
    let mut left: usize = values.len();
    while left > 0
        invariant
            left <= values.len(),
            uuids.len() == values.len() - left,
            forall|i: int|
                0 <= i < uuids.len() ==> (#[trigger] uuids@[i])@ == uuid_text(
                    values@[values.len() - 1 - i],
                ),
        decreases left,
    {
        left -= 1;
        uuids.push(encode_uuid(values[left]));
    }
    assert(texts_of(uuids@) =~= uuids_of(values@));
    uuids
}

/// What was counted among some identifiers.
#[derive(Clone, Copy, Debug, PartialEq, Eq, Structural)]
pub struct UlidGenerationDatesResponse {
    /// Made on a 24th of December.
    pub christmas_eve: usize,
    /// Made on the day of the week that was asked for.
    pub weekday: usize,
    /// Made at a time that is yet to come.
    pub in_the_future: usize,
    /// With a random part that is odd.
    pub lsb_is_one: usize,
}

/// An identifier was made on a 24th of December in UTC.
pub open spec fn made_on_christmas_eve(value: u128) -> bool {
    utc_month(stamp_of(value)) == 12 && utc_day(stamp_of(value)) == 24
}

/// An identifier was made on the day of the week with the given number.
pub open spec fn made_on_weekday(value: u128, weekday: u8) -> bool {
    weekday_number(utc_weekday(stamp_of(value))) == weekday
}

/// An identifier was made after the present time.
pub open spec fn made_later_than(value: u128, now: Option<u128>) -> bool {
    later_than(stamp_of(value), now)
}

/// The random part of an identifier is odd.
pub open spec fn has_odd_random(value: u128) -> bool {
    random_of(value) & 1 == 1
}

/// When an identifier was made, as far as the counts go.
#[derive(Clone, Copy, Debug, PartialEq, Eq, Structural)]
pub struct Made {
    pub month: u32,
    pub day: u32,
    pub weekday: Weekday,
    pub millis: u64,
    pub odd: bool,
}

/// When an identifier was made.
pub open spec fn made_of(value: u128) -> Made {
    Made {
        month: utc_month(stamp_of(value)),
        day: utc_day(stamp_of(value)),
        weekday: utc_weekday(stamp_of(value)),
        millis: stamp_of(value),
        odd: has_odd_random(value),
    }
}

/// Looks up when an identifier was made.
pub fn read_made(value: u128) -> (made: Made)
    ensures
        made == made_of(value),
{
    let millis = timestamp_ms(value);
    Made {
        month: month_of(millis),
        day: day_of(millis),
        weekday: weekday_of(millis),
        millis: millis,
        odd: random(value) & 1 == 1,
    }
}

/// The counts over some identifiers whose dates are known, for a day of
/// the week and a present time.
pub open spec fn tally_of(made: Seq<Made>, weekday: u8, now: Option<u128>) -> UlidGenerationDatesResponse {
    UlidGenerationDatesResponse {
        christmas_eve: made.filter(|m: Made| m.month == 12 && m.day == 24).len() as usize,
        weekday: made.filter(|m: Made| weekday_number(m.weekday) == weekday).len() as usize,
        in_the_future: made.filter(|m: Made| later_than(m.millis, now)).len() as usize,
        lsb_is_one: made.filter(|m: Made| m.odd).len() as usize,
    }
}

/// Counts over some identifiers whose dates are known.
pub fn tally(made: &Vec<Made>, weekday: u8, now: Option<u128>) -> (counts:
    UlidGenerationDatesResponse)
    ensures
        counts == tally_of(made@, weekday, now),
{
    let ghost on_eve = |m: Made| m.month == 12 && m.day == 24;
    let ghost on_day = |m: Made| weekday_number(m.weekday) == weekday;
    let ghost later = |m: Made| later_than(m.millis, now);
    let ghost odd = |m: Made| m.odd;
    let mut counts = UlidGenerationDatesResponse {
        christmas_eve: 0,
        weekday: 0,
        in_the_future: 0,
        lsb_is_one: 0,
    };
    let mut i: usize = 0;
    while i < made.len()
        invariant
            i <= made.len(),
            on_eve == |m: Made| m.month == 12 && m.day == 24,
            on_day == |m: Made| weekday_number(m.weekday) == weekday,
            later == |m: Made| later_than(m.millis, now),
            odd == |m: Made| m.odd,
            counts.christmas_eve == made@.take(i as int).filter(on_eve).len() <= i,
            counts.weekday == made@.take(i as int).filter(on_day).len() <= i,
            counts.in_the_future == made@.take(i as int).filter(later).len() <= i,
            counts.lsb_is_one == made@.take(i as int).filter(odd).len() <= i,
        decreases made.len() - i,
    {
        proof {
            lemma_filter_step(made@, on_eve, i as int);
            lemma_filter_step(made@, on_day, i as int);
            lemma_filter_step(made@, later, i as int);
            lemma_filter_step(made@, odd, i as int);
        }
        let m = made[i];
        if is_christmas_eve_date(m.month, m.day) {
            counts.christmas_eve = counts.christmas_eve + 1;
        }
        if is_weekday_number(m.weekday, weekday) {
            counts.weekday = counts.weekday + 1;
        }
        if is_later_than(m.millis, now) {
            counts.in_the_future = counts.in_the_future + 1;
        }
        if m.odd {
            counts.lsb_is_one = counts.lsb_is_one + 1;
        }
        i += 1;
    }
    assert(made@.take(made.len() as int) == made@);
    counts
}

/// The dates of some identifiers.
pub open spec fn all_made(values: Seq<u128>) -> Seq<Made> {
    Seq::new(values.len(), |i: int| made_of(values[i]))
}

/// Looks up when each of some identifiers was made.
pub fn read_all_made(values: &Vec<u128>) -> (made: Vec<Made>)
    ensures
        made@ == all_made(values@),
{
    let mut made: Vec<Made> = Vec::new();
    let mut i: usize = 0;
    while i < values.len()
        invariant
            i <= values.len(),
            made.len() == i,
            forall|j: int| 0 <= j < i ==> made@[j] == made_of(values@[j]),
        decreases values.len() - i,
    {
        made.push(read_made(values[i]));
        i += 1;
    }
    assert(made@ =~= all_made(values@));
    made
}

/// The whole seconds that have passed between two moments, each given in
/// nanoseconds since 1970, or `None` where the second moment lies before
/// the first.
pub open spec fn seconds_between(then: u128, now: u128) -> Option<u128> {
    if now >= then {
        Some(((now - then) / 1_000_000_000) as u128)
    } else {
        None
    }
}

/// The answer to saving a key: fine where the key was saved, and a
/// rejection where it could not be.
pub fn store(saved: bool) -> (status: Status)
    ensures
        status == if saved {
            Status::Success
        } else {
            Status::BadRequest
        },
{
    if saved {
        Status::Success
    } else {
        Status::BadRequest
    }
}

/// The answer to loading a key at the moment `now`: the whole seconds
/// since the key was saved, in decimal. Both moments are given in
/// nanoseconds since 1970. A key that was never saved is not found; a
/// clock that has gone backwards leaves no answer.
pub open spec fn load_outcome(saved: Option<u128>, now: u128) -> Result<Seq<char>, Status> {
    match saved {
        None => Err(Status::NotFound),
        Some(then) => match seconds_between(then, now) {
            Some(seconds) => Ok(decimal(seconds as nat)),
            None => Err(Status::InternalServerError),
        },
    }
}

/// The answer to loading a key.
pub fn load(saved: Option<u128>, now: u128) -> (answer: Result<String, Status>)
    ensures
        answer_view(answer) == load_outcome(saved, now),
{
    match saved {
        None => Err(Status::NotFound),
        Some(then) => {
            if now >= then {
                let seconds: u128 = (now - then) / 1_000_000_000;
                Ok(string_of(&digits_of(seconds)))
            } else {
                Err(Status::InternalServerError)
            }
        },
    }
}

/// The answer for a list of identifiers: their UUIDs, the last identifier
/// first. A text that writes no identifier has the list rejected.
pub fn ulids(texts: Vec<String>) -> (answer: Result<Vec<String>, Status>)
    ensures
        answer is Ok == ulids_of(texts_of(texts@)) is Some,
        answer matches Ok(uuids) ==> texts_of(uuids@) == uuids_of(ulids_of(texts_of(texts@))->0),
        answer matches Err(status) ==> status == Status::BadRequest,
{
    match Day12::parse_ulids(texts) {
        Ok(values) => Ok(uuids_in_reverse(&values)),
        Err(status) => Err(status),
    }
}

/// The counts for a list of identifiers and a day of the week. A text that
/// writes no identifier has the list rejected. Three of the counts depend
/// on the identifiers alone; how many lie in the future depends on the
/// clock, which is read once.
pub fn generation_dates(weekday: u8, ulids: Vec<String>) -> (answer: Result<
    UlidGenerationDatesResponse,
    Status,
>)
    ensures
        answer is Ok == ulids_of(texts_of(ulids@)) is Some,
        answer matches Ok(counts) ==> exists|now: Option<u128>|
            counts == #[trigger] tally_of(
                all_made(ulids_of(texts_of(ulids@))->0),
                weekday,
                now,
            ),
        answer matches Err(status) ==> status == Status::BadRequest,
{
    match Day12::parse_ulids(ulids) {
        Ok(values) => {
            let made = read_all_made(&values);
            let now = now_millis();
            let counts = tally(&made, weekday, now);
            assert(counts == tally_of(all_made(ulids_of(texts_of(ulids@))->0), weekday, now));
            Ok(counts)
        },
        Err(status) => Err(status),
    }
}

/// The time stamp and identifier endpoints.
pub struct Day12 {}

impl Day12 {
    /// Decodes a list of identifiers. One text that writes none has the
    /// whole list rejected.
    pub fn parse_ulids(ulids: Vec<String>) -> (parsed: Result<Vec<u128>, Status>)
        ensures
            parsed is Ok == ulids_of(texts_of(ulids@)) is Some,
            parsed matches Ok(values) ==> Some(values@) == ulids_of(texts_of(ulids@)),
            parsed matches Err(status) ==> status == Status::BadRequest,
    {
        let ghost texts = texts_of(ulids@);
        let mut values: Vec<u128> = Vec::new();
        let mut i: usize = 0;
        while i < ulids.len()
            invariant
                i <= ulids.len(),
                texts == texts_of(ulids@),
                values.len() == i,
                forall|j: int| 0 <= j < i ==> ulid_value(#[trigger] texts[j]) == Some(values@[j]),
            decreases ulids.len() - i,
        {
            assert(texts[i as int] == ulids[i as int]@);
            match decode_ulid(ulids[i].as_str()) {
                Some(value) => {
                    values.push(value);
                },
                None => {
                    return Err(Status::BadRequest);
                },
            }
            i += 1;
        }
        assert(values@ =~= ulids_of(texts)->0);
        Ok(values)
    }

    /// Whether a time falls on a 24th of December in UTC.
    pub fn is_christmas_eve(datetime: u64) -> (eve: bool)
        requires
            datetime < STAMP_LIMIT,
        ensures
            eve == (utc_month(datetime) == 12 && utc_day(datetime) == 24),
    {
        is_christmas_eve_date(month_of(datetime), day_of(datetime))
    }

    /// Whether a time falls on the day of the week with the given number
    /// in UTC, Monday being 0.
    pub fn is_weekday(datetime: u64, weekday: u8) -> (same: bool)
        requires
            datetime < STAMP_LIMIT,
        ensures
            same == (weekday_number(utc_weekday(datetime)) == weekday),
    {
        is_weekday_number(weekday_of(datetime), weekday)
    }

    /// Whether a time lies after the moment of the call. Which moment that
    /// is, the clock decides, so nothing is promised of the answer here:
    /// `is_later_than` says what is answered for each moment.
    pub fn is_in_the_future(datetime: u64) -> bool {
        let now = now_millis();
        is_later_than(datetime, now)
    }
}

} // verus!
