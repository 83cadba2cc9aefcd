use code_hunt::day1::{checked_cube, sled_id};
use code_hunt::day13::{most_popular, QueryResult};
use code_hunt::day4::{contest, last_max, strength, ContestParticipant, Reindeer};
use code_hunt::day5::{cut, slice, take_window, SliceResult};
use code_hunt::day6::{count_elfs, count_matches, ElfCount};
use code_hunt::day8::{failure_status, get_weight};
use code_hunt::day_negative_1::fake_error;
use code_hunt::status::Status;
use code_hunt::tiebreaker::{mail_batches, write_letter, NaughtyItem};

fn strings(items: &[&str]) -> Vec<String> {
    items.iter().map(|item| item.to_string()).collect()
}

fn chars(text: &str) -> Vec<char> {
    text.chars().collect()
}

#[test]
fn sled_id_is_the_cube_of_the_exclusive_or() {
    assert_eq!(sled_id(&strings(&["4", "8"])), Ok("1728".to_string()));
    assert_eq!(sled_id(&strings(&["10"])), Ok("1000".to_string()));
    assert_eq!(sled_id(&strings(&["4", "5", "8", "10"])), Ok("27".to_string()));
    assert_eq!(sled_id(&strings(&["-3"])), Ok("-27".to_string()));
    assert_eq!(sled_id(&strings(&["7", "7"])), Ok("0".to_string()));
    assert_eq!(sled_id(&strings(&["-1", "2"])), Ok("-27".to_string()));
}

#[test]
fn sled_id_rejects_bad_segments() {
    assert_eq!(sled_id(&strings(&[])), Err(Status::BadRequest));
    assert_eq!(sled_id(&strings(&["4", "x"])), Err(Status::BadRequest));
    assert_eq!(sled_id(&strings(&["4", ""])), Err(Status::BadRequest));
    assert_eq!(sled_id(&strings(&["2147483648"])), Err(Status::BadRequest));
    let twenty: Vec<String> = (0..20).map(|_| "1".to_string()).collect();
    assert_eq!(sled_id(&twenty), Ok("0".to_string()));
    let twenty_one: Vec<String> = (0..21).map(|_| "1".to_string()).collect();
    assert_eq!(sled_id(&twenty_one), Err(Status::BadRequest));
    let too_many_and_bad: Vec<String> = (0..21).map(|_| "x".to_string()).collect();
    assert_eq!(sled_id(&too_many_and_bad), Err(Status::BadRequest));
}

#[test]
fn cube_beyond_32_bits_has_no_answer() {
    assert_eq!(checked_cube(1290), Some(2146689000));
    assert_eq!(checked_cube(-1290), Some(-2146689000));
    assert_eq!(checked_cube(1291), None);
    assert_eq!(checked_cube(-1291), None);
    assert_eq!(checked_cube(i32::MAX), None);
    assert_eq!(checked_cube(i32::MIN), None);
    assert_eq!(sled_id(&strings(&["1291"])), Err(Status::InternalServerError));
    assert_eq!(sled_id(&strings(&["1290"])), Ok("2146689000".to_string()));
}

fn reindeer(name: &str, strength: i32) -> Reindeer {
    Reindeer { name: name.to_string(), strength }
}

// the place of a speed in the total order of floating-point numbers
fn speed_key(speed: f32) -> i32 {
    let bits = speed.to_bits() as i32;
    bits ^ ((((bits >> 31) as u32) >> 1) as i32)
}

fn participant(
    name: &str,
    strength: i32,
    speed: f32,
    height: i32,
    antler_width: i32,
    snow_magic_power: i32,
    favorite_food: &str,
    candies: i32,
) -> ContestParticipant {
    ContestParticipant {
        reindeer: reindeer(name, strength),
        speed: speed_key(speed),
        height,
        antler_width,
        snow_magic_power,
        favorite_food: favorite_food.to_string(),
        candies_eaten_yesterday: candies,
    }
}

#[test]
fn strength_is_the_sum() {
    let team =
        vec![reindeer("Dasher", 5), reindeer("Dancer", 6), reindeer("Prancer", 4), reindeer("Vixen", 7)];
    assert_eq!(strength(&team), Ok("22".to_string()));
    assert_eq!(strength(&vec![]), Ok("0".to_string()));
    assert_eq!(strength(&vec![reindeer("a", -5), reindeer("b", 2)]), Ok("-3".to_string()));
    assert_eq!(
        strength(&vec![reindeer("a", i32::MAX), reindeer("b", 1), reindeer("c", -1)]),
        Err(Status::InternalServerError)
    );
    assert_eq!(
        strength(&vec![reindeer("a", i32::MAX), reindeer("c", -1), reindeer("b", 1)]),
        Ok("2147483647".to_string())
    );
}

#[test]
fn contest_names_the_four_winners() {
    let all = vec![
        participant("Dasher", 5, 50.4, 80, 36, 9001, "hay", 2),
        participant("Dancer", 6, 48.2, 65, 37, 4004, "grass", 5),
    ];
    let results = contest(&all).expect("winners");
    assert_eq!(results.fastest, "Speeding past the finish line with a strength of 5 is Dasher");
    assert_eq!(results.tallest, "Dasher is standing tall with his 36 cm wide antlers");
    assert_eq!(results.magician, "Dasher could blast you away with a snow magic power of 9001");
    assert_eq!(results.consumer, "Dancer ate lots of candies, but also some grass");
}

#[test]
fn contest_takes_the_last_among_equals() {
    let all = vec![
        participant("A", 1, 1.0, 10, 1, -5, "a", 3),
        participant("B", 2, 1.0, 10, 2, -5, "b", 3),
        participant("C", -3, 0.5, 9, 3, -6, "c", 2),
    ];
    let results = contest(&all).expect("winners");
    assert_eq!(results.fastest, "Speeding past the finish line with a strength of 2 is B");
    assert_eq!(results.tallest, "B is standing tall with his 2 cm wide antlers");
    assert_eq!(results.magician, "B could blast you away with a snow magic power of -5");
    assert_eq!(results.consumer, "B ate lots of candies, but also some b");
    assert_eq!(last_max(&vec![3, 1, 3, 2]), 2);
    assert_eq!(last_max(&vec![5]), 0);
    assert_eq!(last_max(&vec![-1, -2]), 0);
}

#[test]
fn contest_orders_speeds_as_floats_are_ordered() {
    let all = vec![
        participant("Slow", 1, -3.5, 1, 1, 1, "x", 1),
        participant("Zero", 2, -0.0, 1, 1, 1, "x", 1),
        participant("Plus", 3, 0.0, 1, 1, 1, "x", 1),
        participant("Back", 4, -100.0, 1, 1, 1, "x", 1),
    ];
    let results = contest(&all).expect("winners");
    assert_eq!(results.fastest, "Speeding past the finish line with a strength of 3 is Plus");
}

#[test]
fn contest_without_participants_is_rejected() {
    assert_eq!(contest(&vec![]).map(|r| r.fastest), Err(Status::BadRequest));
}

fn unsplit(result: Result<SliceResult, Status>) -> Vec<String> {
    match result {
        Ok(SliceResult::Unsplit(items)) => items,
        other => panic!("unexpected answer {:?}", other),
    }
}

fn pieces(result: Result<SliceResult, Status>) -> Vec<Vec<String>> {
    match result {
        Ok(SliceResult::Split(chunks)) => chunks,
        other => panic!("unexpected answer {:?}", other),
    }
}

#[test]
fn slice_skips_and_takes() {
    let names = strings(&["Ava", "Caleb", "Mia", "Owen", "Lily", "Ethan", "Zoe", "Nolan"]);
    assert_eq!(unsplit(slice(Some(3), Some(5), None, names.clone())), names[3..8].to_vec());
    assert_eq!(unsplit(slice(None, None, None, names.clone())), names);
    assert_eq!(unsplit(slice(Some(6), None, None, names.clone())), names[6..].to_vec());
    assert_eq!(unsplit(slice(None, Some(2), None, names.clone())), names[..2].to_vec());
    assert_eq!(unsplit(slice(Some(8), Some(2), None, names.clone())), Vec::<String>::new());
    assert_eq!(unsplit(slice(Some(100), Some(2), None, names.clone())), Vec::<String>::new());
    assert_eq!(unsplit(slice(Some(7), Some(usize::MAX), None, names.clone())), names[7..].to_vec());
    assert_eq!(unsplit(slice(Some(2), Some(0), None, names.clone())), Vec::<String>::new());
    assert_eq!(take_window(&names, 1, 2), names[1..3].to_vec());
}

#[test]
fn slice_cuts_into_pieces() {
    let names = strings(&["Ava", "Caleb", "Mia", "Owen", "Lily", "Ethan", "Zoe", "Nolan"]);
    assert_eq!(
        pieces(slice(None, None, Some(4), names.clone())),
        vec![names[..4].to_vec(), names[4..].to_vec()]
    );
    assert_eq!(
        pieces(slice(Some(2), None, Some(4), names.clone())),
        vec![names[2..6].to_vec(), names[6..].to_vec()]
    );
    assert_eq!(
        pieces(slice(None, Some(5), Some(2), names.clone())),
        vec![names[..2].to_vec(), names[2..4].to_vec(), names[4..5].to_vec()]
    );
    assert_eq!(pieces(slice(None, None, Some(100), names.clone())), vec![names.clone()]);
    assert_eq!(pieces(slice(Some(9), None, Some(3), names.clone())), Vec::<Vec<String>>::new());
    assert_eq!(cut(&names, 8), vec![names.clone()]);
    assert_eq!(cut(&names, 1).len(), 8);
}

#[test]
fn slice_into_pieces_of_nothing_has_no_answer() {
    let names = strings(&["Ava", "Caleb"]);
    assert!(matches!(slice(None, None, Some(0), names), Err(Status::InternalServerError)));
}

#[test]
fn elves_and_shelves_are_counted() {
    assert_eq!(
        count_elfs(
            "The mischievous elf peeked out from behind the toy workshop, and another elf joined in the festive dance. Look, there is also an elf on that shelf!"
        ),
        Ok(ElfCount { elf: 4, elf_on_a_shelf: 0, shelf_with_no_elf_on_it: 1 })
    );
    assert_eq!(
        count_elfs("there is an elf on a shelf on an elf. there is also another shelf in Belfast."),
        Ok(ElfCount { elf: 5, elf_on_a_shelf: 1, shelf_with_no_elf_on_it: 1 })
    );
    assert_eq!(
        count_elfs("shelf on a shelf on a shelf"),
        Ok(ElfCount { elf: 3, elf_on_a_shelf: 2, shelf_with_no_elf_on_it: 1 })
    );
    assert_eq!(
        count_elfs(""),
        Ok(ElfCount { elf: 0, elf_on_a_shelf: 0, shelf_with_no_elf_on_it: 0 })
    );
}

#[test]
fn matches_do_not_overlap() {
    assert_eq!(count_matches(&chars("aaaa"), &chars("aa")), 2);
    assert_eq!(count_matches(&chars("aaaaa"), &chars("aa")), 2);
    assert_eq!(count_matches(&chars("abababa"), &chars("aba")), 2);
    assert_eq!(count_matches(&chars("elf"), &chars("elf")), 1);
    assert_eq!(count_matches(&chars("el"), &chars("elf")), 0);
    assert_eq!(count_matches(&chars(""), &chars("elf")), 0);
    for (text, part) in [("aaaa", "aa"), ("shelf on a shelf", "shelf"), ("xelfelfx", "elfe")] {
        assert_eq!(count_matches(&chars(text), &chars(part)), text.matches(part).count());
    }
}

#[test]
fn weight_is_given_in_whole_kilograms() {
    assert_eq!(get_weight(60), "6");
    assert_eq!(get_weight(69), "6");
    assert_eq!(get_weight(9), "0");
    assert_eq!(get_weight(0), "0");
    assert_eq!(get_weight(-69), "-6");
    assert_eq!(get_weight(i32::MAX), "214748364");
    assert_eq!(get_weight(i32::MIN), "-214748364");
}

#[test]
fn failed_request_is_not_found_or_a_fault() {
    assert_eq!(failure_status(Some(404)), Status::NotFound);
    assert_eq!(failure_status(Some(500)), Status::InternalServerError);
    assert_eq!(failure_status(Some(403)), Status::InternalServerError);
    assert_eq!(failure_status(None), Status::InternalServerError);
}

#[test]
fn fake_error_is_a_fault() {
    assert_eq!(fake_error(), Status::InternalServerError);
    assert_eq!(fake_error().code(), 500);
}

#[test]
fn most_popular_is_the_first_of_the_ranking() {
    assert_eq!(most_popular(&vec![]).popular, None);
    let ranking = vec![
        QueryResult { gift_name: "Toy Train".to_string(), total_quantity: 10 },
        QueryResult { gift_name: "Doll".to_string(), total_quantity: 8 },
    ];
    assert_eq!(most_popular(&ranking).popular, Some("Toy Train".to_string()));
}

#[test]
fn letters_go_out_in_batches_of_ten() {
    let list: Vec<NaughtyItem> = (0..23)
        .map(|i| NaughtyItem { name: format!("N{}", i), email: format!("n{}@north.pole", i) })
        .collect();
    let batches = mail_batches(&list);
    let sizes: Vec<usize> = batches.iter().map(|batch| batch.len()).collect();
    assert_eq!(sizes, vec![10, 10, 3]);
    let names: Vec<String> =
        batches.iter().flat_map(|batch| batch.iter().map(|letter| letter.name.clone())).collect();
    let expected: Vec<String> = list.iter().map(|item| item.name.clone()).collect();
    assert_eq!(names, expected);
    assert_eq!(batches[2][2].email, "n22@north.pole");
    assert_eq!(mail_batches(&vec![]).len(), 0);
    assert_eq!(mail_batches(&list[..10].to_vec()).len(), 1);
    assert_eq!(mail_batches(&list[..11].to_vec()).len(), 2);
}

#[test]
fn letter_addresses_its_reader() {
    let letter =
        write_letter(&NaughtyItem { name: "Grinch".to_string(), email: "g@who.ville".to_string() });
    assert_eq!(letter.name, "Grinch");
    assert_eq!(letter.email, "g@who.ville");
    assert_eq!(
        letter.message,
        "Dear Grinch, it seems this year you've made it onto the Naughty List. But don't worry, everyone makes mistakes. This is a chance to learn and grow. We believe in you and can't wait to see the wonderful things you do next year! Keep shining, and remember, Santa's always cheering for you!"
    );
}
