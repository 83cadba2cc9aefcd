use code_hunt::day12::{
    generation_dates, is_christmas_eve_date, is_later_than, is_weekday_number, load, random,
    read_made, store, tally, timestamp_ms, ulids, uuids_in_reverse, Day12, Made, Weekday,
};
use code_hunt::status::Status;

fn strings(items: &[&str]) -> Vec<String> {
    items.iter().map(|item| item.to_string()).collect()
}

// an identifier made at the given time with the given random part
fn stamp(millis: u64, random: u128) -> u128 {
    ((millis as u128) << 80) | random
}

const CHRISTMAS_EVE_2023_NOON: u64 = 1_703_419_200_000;
const LEAP_DAY_2024_EVENING: u64 = 1_709_251_199_000;

#[test]
fn identifiers_are_written_as_uuids_in_reverse() {
    let input = strings(&[
        "01BJQ0E1C3Z56ABCD0E11HYX4M",
        "01BJQ0E1C3Z56ABCD0E11HYX5N",
        "01BJQ0E1C3Z56ABCD0E11HYX6Q",
        "01BJQ0E1C3Z56ABCD0E11HYX7R",
        "01BJQ0E1C3Z56ABCD0E11HYX8P",
    ]);
    let expected = strings(&[
        "015cae07-0583-f94c-a5b1-a070431f7516",
        "015cae07-0583-f94c-a5b1-a070431f74f8",
        "015cae07-0583-f94c-a5b1-a070431f74d7",
        "015cae07-0583-f94c-a5b1-a070431f74b5",
        "015cae07-0583-f94c-a5b1-a070431f7494",
    ]);
    assert_eq!(ulids(input), Ok(expected));
    assert_eq!(ulids(Vec::new()), Ok(Vec::new()));
    assert_eq!(
        uuids_in_reverse(&vec![0, 1]),
        strings(&["00000000-0000-0000-0000-000000000001", "00000000-0000-0000-0000-000000000000"])
    );
}

#[test]
fn one_bad_identifier_rejects_the_list() {
    assert_eq!(
        ulids(strings(&["01BJQ0E1C3Z56ABCD0E11HYX4M", "not an identifier"])),
        Err(Status::BadRequest)
    );
    assert_eq!(Day12::parse_ulids(strings(&[""])), Err(Status::BadRequest));
    assert_eq!(Day12::parse_ulids(strings(&["01BJQ0E1C3Z56ABCD0E11HYX4"])), Err(Status::BadRequest));
    assert_eq!(generation_dates(0, strings(&["x"])), Err(Status::BadRequest));
    assert_eq!(
        Day12::parse_ulids(strings(&["00000000000000000000000001", "7ZZZZZZZZZZZZZZZZZZZZZZZZZ"])),
        Ok(vec![1, u128::MAX])
    );
}

#[test]
fn identifier_splits_into_time_and_random_part() {
    let value = stamp(CHRISTMAS_EVE_2023_NOON, 0xabc);
    assert_eq!(timestamp_ms(value), CHRISTMAS_EVE_2023_NOON);
    assert_eq!(random(value), 0xabc);
    assert_eq!(timestamp_ms(u128::MAX), (1u64 << 48) - 1);
    assert_eq!(random(u128::MAX), (1u128 << 80) - 1);
    assert_eq!(timestamp_ms(0), 0);
}

#[test]
fn christmas_eve_is_the_24th_of_december() {
    assert!(Day12::is_christmas_eve(CHRISTMAS_EVE_2023_NOON));
    assert!(Day12::is_christmas_eve(CHRISTMAS_EVE_2023_NOON - 12 * 3_600_000));
    assert!(!Day12::is_christmas_eve(CHRISTMAS_EVE_2023_NOON - 12 * 3_600_000 - 1));
    assert!(Day12::is_christmas_eve(CHRISTMAS_EVE_2023_NOON + 12 * 3_600_000 - 1));
    assert!(!Day12::is_christmas_eve(CHRISTMAS_EVE_2023_NOON + 12 * 3_600_000));
    assert!(!Day12::is_christmas_eve(0));
    assert!(!Day12::is_christmas_eve(LEAP_DAY_2024_EVENING));
    assert!(is_christmas_eve_date(12, 24));
    assert!(!is_christmas_eve_date(12, 25));
    assert!(!is_christmas_eve_date(11, 24));
}

#[test]
fn weekdays_are_numbered_from_monday() {
    // 24 December 2023 was a Sunday, 29 February 2024 a Thursday, 1 January 1970 a Thursday
    assert!(Day12::is_weekday(CHRISTMAS_EVE_2023_NOON, 6));
    assert!(!Day12::is_weekday(CHRISTMAS_EVE_2023_NOON, 0));
    assert!(Day12::is_weekday(LEAP_DAY_2024_EVENING, 3));
    assert!(Day12::is_weekday(LEAP_DAY_2024_EVENING + 1000, 4));
    assert!(Day12::is_weekday(0, 3));
    assert!(!Day12::is_weekday(0, 7));
    assert!(!Day12::is_weekday(0, 255));
    let days = [
        Weekday::Mon,
        Weekday::Tue,
        Weekday::Wed,
        Weekday::Thu,
        Weekday::Fri,
        Weekday::Sat,
        Weekday::Sun,
    ];
    for (number, day) in days.iter().enumerate() {
        for asked in 0..=7u8 {
            assert_eq!(is_weekday_number(*day, asked), asked as usize == number);
        }
    }
}

#[test]
fn future_is_what_lies_after_the_present() {
    assert!(!Day12::is_in_the_future(0));
    assert!(!Day12::is_in_the_future(CHRISTMAS_EVE_2023_NOON));
    assert!(Day12::is_in_the_future((1u64 << 48) - 1));
    assert!(is_later_than(5, Some(4)));
    assert!(!is_later_than(5, Some(5)));
    assert!(!is_later_than(5, Some(6)));
    assert!(!is_later_than(u64::MAX, Some(u128::MAX)));
    assert!(is_later_than(0, None));
}

#[test]
fn dates_of_an_identifier_are_looked_up() {
    let made = read_made(stamp(CHRISTMAS_EVE_2023_NOON, 3));
    assert_eq!(
        made,
        Made { month: 12, day: 24, weekday: Weekday::Sun, millis: CHRISTMAS_EVE_2023_NOON, odd: true }
    );
    let made = read_made(stamp(LEAP_DAY_2024_EVENING, 2));
    assert_eq!(
        made,
        Made { month: 2, day: 29, weekday: Weekday::Thu, millis: LEAP_DAY_2024_EVENING, odd: false }
    );
}

#[test]
fn identifiers_are_tallied() {
    let eve = Made { month: 12, day: 24, weekday: Weekday::Sun, millis: 100, odd: true };
    let leap = Made { month: 2, day: 29, weekday: Weekday::Thu, millis: 200, odd: false };
    let late = Made { month: 12, day: 24, weekday: Weekday::Thu, millis: 300, odd: true };
    let counts = tally(&vec![eve, leap, late, eve], 3, Some(200));
    assert_eq!(counts.christmas_eve, 3);
    assert_eq!(counts.weekday, 2);
    assert_eq!(counts.in_the_future, 1);
    assert_eq!(counts.lsb_is_one, 3);
    let counts = tally(&vec![], 3, Some(200));
    assert_eq!(
        (counts.christmas_eve, counts.weekday, counts.in_the_future, counts.lsb_is_one),
        (0, 0, 0, 0)
    );
    let counts = tally(&vec![eve, leap], 9, None);
    assert_eq!(
        (counts.christmas_eve, counts.weekday, counts.in_the_future, counts.lsb_is_one),
        (1, 0, 2, 1)
    );
}

#[test]
fn generation_dates_are_counted_from_texts() {
    let texts: Vec<String> = [
        stamp(CHRISTMAS_EVE_2023_NOON, 1),
        stamp(CHRISTMAS_EVE_2023_NOON + 1, 2),
        stamp(LEAP_DAY_2024_EVENING, 5),
        stamp((1u64 << 48) - 1, 0),
    ]
    .iter()
    .map(|value| ulid::Ulid(*value).to_string())
    .collect();
    let counts = generation_dates(6, texts).expect("counts");
    assert_eq!(counts.christmas_eve, 2);
    assert_eq!(counts.weekday, 2);
    assert_eq!(counts.in_the_future, 1);
    assert_eq!(counts.lsb_is_one, 2);
}

#[test]
fn load_answers_with_whole_seconds() {
    assert_eq!(load(Some(1_000_000_000), 3_999_999_999), Ok("2".to_string()));
    assert_eq!(load(Some(1_000_000_000), 4_000_000_000), Ok("3".to_string()));
    assert_eq!(load(Some(5), 5), Ok("0".to_string()));
    assert_eq!(load(Some(0), u128::MAX), Ok("340282366920938463463374607431".to_string()));
    assert_eq!(load(Some(6), 5), Err(Status::InternalServerError));
    assert_eq!(load(None, 5), Err(Status::NotFound));
}

#[test]
fn store_answers_whether_the_key_was_saved() {
    assert_eq!(store(true), Status::Success);
    assert_eq!(store(false), Status::BadRequest);
}
