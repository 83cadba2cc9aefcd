//! Reindeer: the combined strength of a team, and the winners of a contest.

use crate::status::Status;
use crate::text::{i64_to_string, signed_decimal, sum_of};
use vstd::prelude::*;
use vstd::string::StringExecFns;

verus! {

/// A reindeer and how strong it is.
#[derive(Clone, Debug)]
pub struct Reindeer {
    pub name: String,
    pub strength: i32,
}

/// A reindeer that takes part in the contest.
///
/// `speed` is not the speed itself but its place in the total order of
/// floating-point numbers: a larger number stands for a larger speed, equal
/// numbers for the same speed.
#[derive(Clone, Debug)]
pub struct ContestParticipant {
    pub reindeer: Reindeer,
    pub speed: i32,
    pub height: i32,
    pub antler_width: i32,
    pub snow_magic_power: i32,
    pub favorite_food: String,
    pub candies_eaten_yesterday: i32,
}

/// The four sentences that name the winners.
#[derive(Clone, Debug)]
pub struct ContestResults {
    pub fastest: String,
    pub tallest: String,
    pub magician: String,
    pub consumer: String,
}

/// What the sentences hold.
pub struct ContestView {
    pub fastest: Seq<char>,
    pub tallest: Seq<char>,
    pub magician: Seq<char>,
    pub consumer: Seq<char>,
}

impl View for ContestResults {
    type V = ContestView;

    open spec fn view(&self) -> ContestView {
        ContestView {
            fastest: self.fastest@,
            tallest: self.tallest@,
            magician: self.magician@,
            consumer: self.consumer@,
        }
    }
}

/// The strengths of a team.
pub open spec fn strengths_of(team: Seq<Reindeer>) -> Seq<int> {
    Seq::new(team.len(), |i: int| team[i].strength as int)
}

/// Every sum of the first strengths of a team fits 32 bits with a sign.
pub open spec fn sums_fit(values: Seq<int>) -> bool {
    forall|n: int| 0 <= n <= values.len() ==> i32::MIN <= #[trigger] sum_of(values.take(n)) <= i32::MAX
}

/// The combined strength of a team in decimal. There is no answer where
/// adding up the strengths one by one leaves 32 bits with a sign.
pub fn strength(reindeers: &Vec<Reindeer>) -> (answer: Result<String, Status>)
    ensures
        answer is Ok == sums_fit(strengths_of(reindeers@)),
        answer matches Ok(text) ==> text@ == signed_decimal(sum_of(strengths_of(reindeers@))),
        answer matches Err(status) ==> status == Status::InternalServerError,
{
    let ghost values = strengths_of(reindeers@);
    let mut total: i32 = 0;
    let mut i: usize = 0;
    assert(values.take(0) =~= Seq::<int>::empty());
    while i < reindeers.len()
        invariant
            i <= reindeers.len(),
            values == strengths_of(reindeers@),
            total == sum_of(values.take(i as int)),
            forall|n: int| 0 <= n <= i ==> i32::MIN <= #[trigger] sum_of(values.take(n)) <= i32::MAX,
        decreases reindeers.len() - i,
    {
        assert(values.take(i + 1).drop_last() == values.take(i as int));
        assert(values[i as int] == reindeers[i as int].strength);
        let next: i64 = total as i64 + reindeers[i].strength as i64;
        if next > i32::MAX as i64 || next < i32::MIN as i64 {
            assert(!(i32::MIN <= sum_of(values.take(i + 1)) <= i32::MAX));
            return Err(Status::InternalServerError);
        }
        total = next as i32;
        i += 1;
    }
    assert(values.take(reindeers.len() as int) == values);
    Ok(i64_to_string(total as i64))
}

/// The key at `i` is the largest one, and the last of those that are as
/// large.
pub open spec fn is_last_max(keys: Seq<i32>, i: int) -> bool {
    &&& 0 <= i < keys.len()
    &&& forall|j: int| 0 <= j < keys.len() ==> #[trigger] keys[j] <= keys[i]
    &&& forall|j: int| i < j < keys.len() ==> #[trigger] keys[j] < keys[i]
}

/// Only one place holds the last of the largest keys.
pub proof fn lemma_last_max_is_unique(keys: Seq<i32>, i: int, j: int)
    requires
        is_last_max(keys, i),
        is_last_max(keys, j),
    ensures
        i == j,
{
    if i < j {
        assert(keys[j] < keys[i]);
        assert(keys[j] <= keys[i]);
        assert(keys[i] <= keys[j]);
    } else if j < i {
        assert(keys[i] < keys[j]);
        assert(keys[j] <= keys[i]);
    }
}

/// Where the last of the largest keys stands.
pub fn last_max(keys: &Vec<i32>) -> (place: usize)
    requires
        keys.len() > 0,
    ensures
        is_last_max(keys@, place as int),
{
    let mut place: usize = 0;
    let mut i: usize = 1;
    while i < keys.len()
        invariant
            1 <= i <= keys.len(),
            place < i,
            forall|j: int| 0 <= j < i ==> #[trigger] keys@[j] <= keys@[place as int],
            forall|j: int| place < j < i ==> #[trigger] keys@[j] < keys@[place as int],
        decreases keys.len() - i,
    {
        if keys[i] >= keys[place] {
            place = i;
        }
        i += 1;
    }
    place
}

/// The sentence for the fastest reindeer.
pub open spec fn fastest_text(strength: int, name: Seq<char>) -> Seq<char> {
    "Speeding past the finish line with a strength of "@ + signed_decimal(strength) + " is "@
        + name
}

/// The sentence for the tallest reindeer.
pub open spec fn tallest_text(name: Seq<char>, antler_width: int) -> Seq<char> {
    name + " is standing tall with his "@ + signed_decimal(antler_width) + " cm wide antlers"@
}

/// The sentence for the reindeer with the most snow magic.
pub open spec fn magician_text(name: Seq<char>, power: int) -> Seq<char> {
    name + " could blast you away with a snow magic power of "@ + signed_decimal(power)
}

/// The sentence for the reindeer that ate the most candies.
pub open spec fn consumer_text(name: Seq<char>, food: Seq<char>) -> Seq<char> {
    name + " ate lots of candies, but also some "@ + food
}

/// The speeds of some participants.
pub open spec fn speeds_of(all: Seq<ContestParticipant>) -> Seq<i32> {
    Seq::new(all.len(), |i: int| all[i].speed)
}

/// The heights of some participants.
pub open spec fn heights_of(all: Seq<ContestParticipant>) -> Seq<i32> {
    Seq::new(all.len(), |i: int| all[i].height)
}

/// The snow magic powers of some participants.
pub open spec fn powers_of(all: Seq<ContestParticipant>) -> Seq<i32> {
    Seq::new(all.len(), |i: int| all[i].snow_magic_power)
}

/// The candies that some participants ate.
pub open spec fn candies_of(all: Seq<ContestParticipant>) -> Seq<i32> {
    Seq::new(all.len(), |i: int| all[i].candies_eaten_yesterday)
}

/// The sentences that name the participants at the four given places.
pub open spec fn results_for(
    all: Seq<ContestParticipant>,
    fastest: int,
    tallest: int,
    magician: int,
    consumer: int,
) -> ContestView {
    ContestView {
        fastest: fastest_text(all[fastest].reindeer.strength as int, all[fastest].reindeer.name@),
        tallest: tallest_text(all[tallest].reindeer.name@, all[tallest].antler_width as int),
        magician: magician_text(
            all[magician].reindeer.name@,
            all[magician].snow_magic_power as int,
        ),
        consumer: consumer_text(all[consumer].reindeer.name@, all[consumer].favorite_food@),
    }
}

fn keys_of(all: &Vec<ContestParticipant>, which: u8) -> (keys: Vec<i32>)
    ensures
        keys@ == if which == 0 {
            speeds_of(all@)
        } else if which == 1 {
            heights_of(all@)
        } else if which == 2 {
            powers_of(all@)
        } else {
            candies_of(all@)
        },
{
    let mut keys: Vec<i32> = Vec::new();
    let mut i: usize = 0;
    while i < all.len()
        invariant
            i <= all.len(),
            keys.len() == i,
            forall|j: int|
                0 <= j < i ==> keys@[j] == if which == 0 {
                    all@[j].speed
                } else if which == 1 {
                    all@[j].height
                } else if which == 2 {
                    all@[j].snow_magic_power
                } else {
                    all@[j].candies_eaten_yesterday
                },
        decreases all.len() - i,
    {
        let key = if which == 0 {
            all[i].speed
        } else if which == 1 {
            all[i].height
        } else if which == 2 {
            all[i].snow_magic_power
        } else {
            all[i].candies_eaten_yesterday
        };
        keys.push(key);
        i += 1;
    }
    assert(which == 0 ==> keys@ =~= speeds_of(all@));
    assert(which == 1 ==> keys@ =~= heights_of(all@));
    assert(which == 2 ==> keys@ =~= powers_of(all@));
    assert(which > 2 ==> keys@ =~= candies_of(all@));
    keys
}

/// The winners of a contest: the fastest, the tallest, the one with the
/// most snow magic and the one that ate the most candies; among equals the
/// one that stands last. A contest without participants is rejected.
pub fn contest(contest_participants: &Vec<ContestParticipant>) -> (answer: Result<
    ContestResults,
    Status,
>)
    ensures
        answer is Err == (contest_participants.len() == 0),
        answer matches Err(status) ==> status == Status::BadRequest,
        answer matches Ok(results) ==> exists|
            fastest: int,
            tallest: int,
            magician: int,
            consumer: int,
        |
            {
                &&& is_last_max(speeds_of(contest_participants@), fastest)
                &&& is_last_max(heights_of(contest_participants@), tallest)
                &&& is_last_max(powers_of(contest_participants@), magician)
                &&& is_last_max(candies_of(contest_participants@), consumer)
                &&& results@ == #[trigger] results_for(
                    contest_participants@,
                    fastest,
                    tallest,
                    magician,
                    consumer,
                )
            },
{
    let all = contest_participants;
    if all.len() == 0 {
        return Err(Status::BadRequest);
    }
    let fastest = last_max(&keys_of(all, 0));
    let tallest = last_max(&keys_of(all, 1));
    let magician = last_max(&keys_of(all, 2));
    let consumer = last_max(&keys_of(all, 3));

    let mut first = "Speeding past the finish line with a strength of ".to_owned();
    first.append(i64_to_string(all[fastest].reindeer.strength as i64).as_str());
    first.append(" is ");
    first.append(all[fastest].reindeer.name.as_str());

    let mut second = all[tallest].reindeer.name.clone();
    second.append(" is standing tall with his ");
    second.append(i64_to_string(all[tallest].antler_width as i64).as_str());
    second.append(" cm wide antlers");

    let mut third = all[magician].reindeer.name.clone();
    third.append(" could blast you away with a snow magic power of ");
    third.append(i64_to_string(all[magician].snow_magic_power as i64).as_str());

    let mut fourth = all[consumer].reindeer.name.clone();
    fourth.append(" ate lots of candies, but also some ");
    fourth.append(all[consumer].favorite_food.as_str());

    let results = ContestResults {
        fastest: first,
        tallest: second,
        magician: third,
        consumer: fourth,
    };
    assert(results@ == results_for(
        all@,
        fastest as int,
        tallest as int,
        magician as int,
        consumer as int,
    ));
    Ok(results)
}

/// The reindeer endpoints.
pub struct Day4 {}

} // verus!
