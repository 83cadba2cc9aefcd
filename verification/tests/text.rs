use code_hunt::text::{
    chars_of, contains, found_at, i64_to_string, parse_i32, parse_u64, parse_usize, same_text,
    split, string_of, u64_to_string,
};

fn chars(text: &str) -> Vec<char> {
    text.chars().collect()
}

fn strings(pieces: Vec<Vec<char>>) -> Vec<String> {
    pieces.into_iter().map(|piece| piece.into_iter().collect()).collect()
}

#[test]
fn chars_and_strings_round_trip() {
    assert_eq!(chars_of("añ🎁"), vec!['a', 'ñ', '🎁']);
    assert_eq!(chars_of(""), Vec::<char>::new());
    assert_eq!(string_of(&vec!['o', 'k']), "ok");
    assert!(same_text("serve", "serve"));
    assert!(!same_text("serve", "served"));
    assert!(!same_text("serve", "servo"));
}

#[test]
fn unsigned_numbers_are_written_in_decimal() {
    assert_eq!(u64_to_string(0), "0");
    assert_eq!(u64_to_string(7), "7");
    assert_eq!(u64_to_string(1203), "1203");
    assert_eq!(u64_to_string(u64::MAX), "18446744073709551615");
}

#[test]
fn signed_numbers_are_written_in_decimal() {
    assert_eq!(i64_to_string(0), "0");
    assert_eq!(i64_to_string(-1), "-1");
    assert_eq!(i64_to_string(1728), "1728");
    assert_eq!(i64_to_string(i64::MIN), "-9223372036854775808");
    assert_eq!(i64_to_string(i64::MAX), "9223372036854775807");
}

#[test]
fn signed_numbers_are_read_as_std_reads_them() {
    for text in [
        "0", "7", "-7", "+7", "007", "-0", "+0", "2147483647", "2147483648", "-2147483648",
        "-2147483649", "", "+", "-", "--1", "+-1", "1 ", " 1", "1a", "a1", "１", "1.0",
        "99999999999999999999999", "-99999999999999999999999", "0000000000000000000000012",
    ] {
        assert_eq!(parse_i32(&chars(text)), text.parse::<i32>().ok(), "reading {:?}", text);
    }
}

#[test]
fn unsigned_numbers_are_read_as_std_reads_them() {
    for text in [
        "0", "7", "-7", "+7", "007", "-0", "+0", "18446744073709551615", "18446744073709551616",
        "", "+", "-", "1 ", "x", "4294967295", "4294967296", "99999999999999999999999",
    ] {
        assert_eq!(parse_u64(&chars(text)), text.parse::<u64>().ok(), "reading {:?}", text);
        assert_eq!(parse_usize(&chars(text)), text.parse::<usize>().ok(), "reading {:?}", text);
    }
}

#[test]
fn text_is_cut_at_every_separator() {
    for text in ["", "a", "a b", " a", "a ", "a  b", "  ", "1 2 3", "line\nline\n", "\n"] {
        for sep in [' ', '\n'] {
            let expected: Vec<String> = text.split(sep).map(String::from).collect();
            assert_eq!(strings(split(&chars(text), sep)), expected, "cutting {:?}", text);
        }
    }
}

#[test]
fn parts_are_found_where_they_stand() {
    let text = chars("a COOKIE jar");
    let part = chars("COOKIE");
    assert!(contains(&text, &part));
    assert!(found_at(&text, &part, 2));
    assert!(!found_at(&text, &part, 1));
    assert!(!found_at(&text, &part, 7));
    assert!(!found_at(&text, &part, 100));
    assert!(!contains(&chars("a COOKI jar"), &part));
    assert!(!contains(&chars("COOKI"), &part));
    assert!(contains(&chars("COOKIE"), &part));
    assert!(contains(&chars("xxCOOKIE"), &part));
    assert!(contains(&text, &chars("")));
    assert!(contains(&chars(""), &chars("")));
    assert!(!contains(&chars(""), &part));
}
