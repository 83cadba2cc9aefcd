use code_hunt::day15::{
    checked_integers, checked_sum, count_digits, count_vowels, forbidden_pair_in, game,
    game_verdict, joyful, nice, nice_status, nice_verdict, read_glyphs, repeated_letter_in,
    sandwich_in, Day15, Glyph, NiceResult, Verdict,
};
use code_hunt::status::Status;

fn chars(text: &str) -> Vec<char> {
    text.chars().collect()
}

fn plain(text: &str) -> Vec<Glyph> {
    text.chars()
        .map(|c| Glyph {
            c,
            letter: c.is_ascii_alphabetic(),
            upper: c.is_ascii_uppercase(),
            lower: c.is_ascii_lowercase(),
        })
        .collect()
}

#[test]
fn glyphs_carry_what_unicode_says() {
    let glyphs = read_glyphs(&chars("aZ9é Σ"));
    let flags: Vec<(char, bool, bool, bool)> =
        glyphs.iter().map(|g| (g.c, g.letter, g.upper, g.lower)).collect();
    assert_eq!(
        flags,
        vec![
            ('a', true, false, true),
            ('Z', true, true, false),
            ('9', false, false, false),
            ('é', true, false, true),
            (' ', false, false, false),
            ('Σ', true, true, false),
        ]
    );
}

#[test]
fn repeated_letter_is_found_before_the_last_character() {
    assert!(Day15::has_letters_that_appear_twice_in_a_row("hello there"));
    assert!(Day15::has_letters_that_appear_twice_in_a_row("abbc"));
    assert!(Day15::has_letters_that_appear_twice_in_a_row("aBbc"));
    assert!(Day15::has_letters_that_appear_twice_in_a_row("ÉÉx"));
    assert!(!Day15::has_letters_that_appear_twice_in_a_row("abcd"));
    assert!(!Day15::has_letters_that_appear_twice_in_a_row("he77o there"));
    assert!(!Day15::has_letters_that_appear_twice_in_a_row("1122"));
}

#[test]
fn repeated_letter_at_the_very_end_does_not_count() {
    assert!(!Day15::has_letters_that_appear_twice_in_a_row("abb"));
    assert!(!Day15::has_letters_that_appear_twice_in_a_row("aa"));
    assert!(!Day15::has_letters_that_appear_twice_in_a_row("a"));
    assert!(!Day15::has_letters_that_appear_twice_in_a_row(""));
    assert!(!repeated_letter_in(&plain("abb")));
    assert!(repeated_letter_in(&plain("abbc")));
}

#[test]
fn integers_are_the_runs_of_digits() {
    assert_eq!(Day15::find_integers("a12b3"), vec![12, 3]);
    assert_eq!(Day15::find_integers("2000.23.A joy joy"), vec![2000, 23]);
    assert_eq!(Day15::find_integers("007"), vec![7]);
    assert_eq!(Day15::find_integers("no digits"), Vec::<i32>::new());
    assert_eq!(Day15::find_integers(""), Vec::<i32>::new());
    assert_eq!(Day15::find_integers("2147483647x0"), vec![2147483647, 0]);
    assert_eq!(Day15::find_integers("1-2"), vec![1, 2]);
}

#[test]
fn integers_beyond_32_bits_are_not_read() {
    assert_eq!(checked_integers(&chars("x2147483647")), Some(vec![2147483647]));
    assert_eq!(checked_integers(&chars("x2147483648")), None);
    assert_eq!(checked_integers(&chars("1 99999999999 2")), None);
    assert_eq!(checked_integers(&chars("00000000000000000000012")), Some(vec![12]));
}

#[test]
fn sums_beyond_32_bits_are_not_taken() {
    assert_eq!(checked_sum(&vec![2000, 23]), Some(2023));
    assert_eq!(checked_sum(&vec![]), Some(0));
    assert_eq!(checked_sum(&vec![2147483647, 0]), Some(2147483647));
    assert_eq!(checked_sum(&vec![2147483647, 1]), None);
    assert_eq!(checked_sum(&vec![1, 2147483647, 5]), None);
}

#[test]
fn joy_is_spelt_once_and_in_order() {
    assert!(Day15::is_joyful("joy"));
    assert!(Day15::is_joyful("xJxOxYx"));
    assert!(Day15::is_joyful("2000.23.A j  ;) o  ;) y"));
    assert!(!Day15::is_joyful("yoj"));
    assert!(!Day15::is_joyful("jjoy"));
    assert!(!Day15::is_joyful("jooy"));
    assert!(!Day15::is_joyful("joyy"));
    assert!(!Day15::is_joyful("joy joy"));
    assert!(!Day15::is_joyful("jo"));
    assert!(!Day15::is_joyful("oy"));
    assert!(!Day15::is_joyful(""));
    assert!(joyful(&chars("a j o y")));
    assert!(!joyful(&chars("JOY")));
}

#[test]
fn sandwich_is_a_letter_between_two_equal_letters() {
    assert!(Day15::contains_sandwich("xyx"));
    assert!(Day15::contains_sandwich("aaa"));
    assert!(Day15::contains_sandwich("..aza.."));
    assert!(!Day15::contains_sandwich("a1a"));
    assert!(!Day15::contains_sandwich("1a1"));
    assert!(!Day15::contains_sandwich("aZA"));
    assert!(!Day15::contains_sandwich("ab"));
    assert!(!Day15::contains_sandwich(""));
    assert!(sandwich_in(&plain("abcb")));
    assert!(!sandwich_in(&plain("abca")));
}

#[test]
fn vowels_and_forbidden_pairs_are_counted_as_written() {
    assert_eq!(count_vowels(&chars("hello there")), 4);
    assert_eq!(count_vowels(&chars("AEIOU")), 0);
    assert_eq!(count_vowels(&chars("")), 0);
    assert!(forbidden_pair_in(&chars("crab")));
    assert!(forbidden_pair_in(&chars("xy")));
    assert!(forbidden_pair_in(&chars("pq!")));
    assert!(forbidden_pair_in(&chars("abcd")));
    assert!(!forbidden_pair_in(&chars("AB")));
    assert!(!forbidden_pair_in(&chars("a b")));
    assert!(!forbidden_pair_in(&chars("ba dc qp yx")));
}

#[test]
fn nice_needs_vowels_a_pair_and_no_forbidden_pair() {
    assert_eq!(nice("hello there"), Some(NiceResult::Nice));
    assert_eq!(nice("HELLO THERE"), Some(NiceResult::Nice));
    assert_eq!(nice("abcd"), Some(NiceResult::Naughty));
    assert_eq!(nice("he77o there"), Some(NiceResult::Naughty));
    assert_eq!(nice("hello xylophone"), Some(NiceResult::Naughty));
    assert_eq!(nice("hllo thr"), Some(NiceResult::Naughty));
    assert_eq!(nice("aeiou"), Some(NiceResult::Naughty));
    assert_eq!(nice("aeioubb"), Some(NiceResult::Naughty));
    assert_eq!(nice("aeioubbc"), Some(NiceResult::Nice));
    assert_eq!(nice("a"), Some(NiceResult::Naughty));
    assert_eq!(nice_verdict(&plain("aeioubbc"), &chars("aeioubbc")), Some(NiceResult::Nice));
    assert_eq!(nice_verdict(&plain("aeioubbc"), &chars("aeioubbcd")), Some(NiceResult::Naughty));
    assert_eq!(nice_status(NiceResult::Nice), Status::Success);
    assert_eq!(nice_status(NiceResult::Naughty), Status::BadRequest);
}

#[test]
fn nice_cannot_work_on_the_empty_text() {
    assert_eq!(nice(""), None);
    assert_eq!(nice_verdict(&plain(""), &chars("")), None);
    assert_eq!(nice_verdict(&plain(""), &chars("aeioubbc")), None);
}

#[test]
fn game_gives_the_first_rule_that_fails() {
    assert_eq!(game("Aa1"), Some(Verdict::TooShort));
    assert_eq!(game("mario"), Some(Verdict::TooShort));
    assert_eq!(game("abcdefgh"), Some(Verdict::FewKinds));
    assert_eq!(game("ABCDEFG1"), Some(Verdict::FewKinds));
    assert_eq!(game("abcdefg1"), Some(Verdict::FewKinds));
    assert_eq!(game("Abcdef12"), Some(Verdict::FewDigits));
    assert_eq!(game("Abc12345"), Some(Verdict::BadSum));
    assert_eq!(game("Ab2000x23"), Some(Verdict::Joyless));
    assert_eq!(game("Ab2000x23yoj"), Some(Verdict::Joyless));
    assert_eq!(game("Ab2000x23joy"), Some(Verdict::NoSandwich));
    assert_eq!(game("Ab2000x23joyaza"), Some(Verdict::OutOfRange));
    assert_eq!(game("Ab2000x23joyaza⦖"), Some(Verdict::NoEmoji));
    assert_eq!(game("Ab2000x23joyaza⦖🍪"), Some(Verdict::NotBrewer));
    assert_eq!(game("Ab2000x23joyaza⦖🍪d"), Some(Verdict::Nice));
}

#[test]
fn game_counts_the_length_in_bytes() {
    // six characters, more than seven bytes
    assert_eq!(game("ééééé1"), Some(Verdict::FewKinds));
    assert_eq!(game("abcde1"), Some(Verdict::TooShort));
}

#[test]
fn game_has_no_verdict_where_numbers_overflow() {
    assert_eq!(game("Ab99999999999"), None);
    assert_eq!(game("Ab2147483647x1"), None);
    assert_eq!(game("Ab2147483647"), Some(Verdict::BadSum));
    // an earlier rule decides before the numbers are read
    assert_eq!(game("ab99999999999"), Some(Verdict::FewKinds));
}

#[test]
fn game_verdict_follows_what_it_is_told() {
    let text = "Ab2000x23joyaza⦖🍪";
    let glyphs = plain(text);
    let lowered = chars(&text.to_lowercase());
    let brewer = chars("00ffa");
    let other = chars("00ff7");
    let len = text.len();
    assert_eq!(game_verdict(len, &glyphs, &lowered, Some(true), &brewer), Some(Verdict::Nice));
    assert_eq!(game_verdict(len, &glyphs, &lowered, Some(true), &other), Some(Verdict::NotBrewer));
    assert_eq!(game_verdict(len, &glyphs, &lowered, Some(false), &brewer), Some(Verdict::NoEmoji));
    assert_eq!(game_verdict(len, &glyphs, &lowered, None, &brewer), None);
    assert_eq!(game_verdict(len, &glyphs, &lowered, Some(true), &chars("")), None);
    assert_eq!(game_verdict(6, &glyphs, &lowered, Some(true), &brewer), Some(Verdict::TooShort));
    assert_eq!(
        game_verdict(len, &glyphs, &chars("yoj"), Some(true), &brewer),
        Some(Verdict::Joyless)
    );
    assert_eq!(count_digits(&chars(text)), 6);
}

#[test]
fn verdicts_have_their_status_and_reason() {
    let expected = [
        (Verdict::TooShort, Status::BadRequest, 400, "8 chars"),
        (Verdict::FewKinds, Status::BadRequest, 400, "more types of chars"),
        (Verdict::FewDigits, Status::BadRequest, 400, "55555"),
        (Verdict::BadSum, Status::BadRequest, 400, "math is hard"),
        (Verdict::Joyless, Status::NotAcceptable, 406, "not joyful enough"),
        (Verdict::NoSandwich, Status::UnavailableForLegalReasons, 451, "illegal: no sandwich"),
        (Verdict::OutOfRange, Status::RangeNotSatisfiable, 416, "outranged"),
        (Verdict::NoEmoji, Status::UpgradeRequired, 426, "😳"),
        (Verdict::NotBrewer, Status::ImATeapot, 418, "not a coffee brewer"),
        (Verdict::Nice, Status::Success, 200, "that's a nice password"),
    ];
    for (verdict, status, code, reason) in expected {
        assert_eq!(verdict.status(), status);
        assert_eq!(verdict.status().code(), code);
        assert_eq!(verdict.reason(), reason);
        let nice = verdict == Verdict::Nice;
        assert_eq!(verdict.result() == NiceResult::Nice, nice);
    }
    assert_eq!(Status::NotFound.code(), 404);
    assert_eq!(Status::InternalServerError.code(), 500);
}
