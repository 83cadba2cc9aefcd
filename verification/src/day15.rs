//! Password rules: the nice-or-naughty test and the password game.

use crate::text::{
    char_is_letter, char_is_lower, char_is_upper, chars_of, contains, contains_text, digit_value,
    is_digit, is_digit_char, is_letter, is_lower, is_upper, lemma_filter_step, lowercase_of,
    sum_of, to_lowercase,
};
use crate::status::Status;
use vstd::prelude::*;

verus! {

/// A character together with what Unicode says of it.
#[derive(Clone, Copy, Debug, PartialEq, Eq)]
pub struct Glyph {
    pub c: char,
    /// The character is alphabetic.
    pub letter: bool,
    /// The character is an uppercase letter.
    pub upper: bool,
    /// The character is a lowercase letter.
    pub lower: bool,
}

/// The glyph of a character.
pub open spec fn glyph_of(c: char) -> Glyph {
    Glyph { c: c, letter: is_letter(c), upper: is_upper(c), lower: is_lower(c) }
}

/// The glyphs of a text, one for each character.
pub open spec fn glyphs_of(text: Seq<char>) -> Seq<Glyph> {
    Seq::new(text.len(), |i: int| glyph_of(text[i]))
}

/// Looks up one character.
pub fn read_glyph(c: char) -> (glyph: Glyph)
    ensures
        glyph == glyph_of(c),
{
    Glyph { c: c, letter: char_is_letter(c), upper: char_is_upper(c), lower: char_is_lower(c) }
}

/// Looks up every character of a text.
pub fn read_glyphs(chars: &Vec<char>) -> (read: Vec<Glyph>)
    ensures
        read@ == glyphs_of(chars@),
{
    let mut glyphs: Vec<Glyph> = Vec::new();
    let mut i: usize = 0;
    while i < chars.len()
        invariant
            i <= chars.len(),
            glyphs.len() == i,
            forall|j: int| 0 <= j < i ==> glyphs@[j] == glyph_of(chars@[j]),
        decreases chars.len() - i,
    {
        glyphs.push(read_glyph(chars[i]));
        i += 1;
    }
    assert(glyphs@ =~= glyphs_of(chars@));
    glyphs
}

/// A letter stands at `i` right after itself, and `i` is not the last
/// position of the text.
pub open spec fn repeated_letter_at(glyphs: Seq<Glyph>, i: int) -> bool {
    1 <= i < glyphs.len() - 1 && glyphs[i].c == glyphs[i - 1].c && glyphs[i].letter
}

/// Some letter appears twice in a row before the last character of the
/// text. The last character is never looked at, so a pair that ends the
/// text does not count.
pub open spec fn has_repeated_letter(glyphs: Seq<Glyph>) -> bool {
    exists|i: int| repeated_letter_at(glyphs, i)
}

/// Whether some letter appears twice in a row before the last character.
pub fn repeated_letter_in(glyphs: &Vec<Glyph>) -> (found: bool)
    ensures
        found == has_repeated_letter(glyphs@),
{
    if glyphs.len() < 3 {
        return false;
    }
    let mut i: usize = 1;
    while i < glyphs.len() - 1
        invariant
            1 <= i <= glyphs.len() - 1,
            forall|j: int| 1 <= j < i ==> !repeated_letter_at(glyphs@, j),
        decreases glyphs.len() - i,
    {
        if glyphs[i].c == glyphs[i - 1].c && glyphs[i].letter {
            assert(repeated_letter_at(glyphs@, i as int));
            return true;
        }
        i += 1;
    }
    false
}

/// Three letters stand at `i`, `i + 1` and `i + 2`, the outer two the same.
pub open spec fn sandwich_at(glyphs: Seq<Glyph>, i: int) -> bool {
    &&& 0 <= i
    &&& i + 2 < glyphs.len()
    &&& glyphs[i].letter
    &&& glyphs[i + 1].letter
    &&& glyphs[i + 2].letter
    &&& glyphs[i].c == glyphs[i + 2].c
}

/// Somewhere a letter is followed by a letter and then by itself.
pub open spec fn has_sandwich(glyphs: Seq<Glyph>) -> bool {
    exists|i: int| sandwich_at(glyphs, i)
}

/// Whether somewhere a letter is followed by a letter and then by itself.
pub fn sandwich_in(glyphs: &Vec<Glyph>) -> (found: bool)
    ensures
        found == has_sandwich(glyphs@),
{
    if glyphs.len() < 3 {
        return false;
    }
    let mut i: usize = 0;
    while i < glyphs.len() - 2
        invariant
            glyphs.len() >= 3,
            i <= glyphs.len() - 2,
            forall|j: int| 0 <= j < i ==> !sandwich_at(glyphs@, j),
        decreases glyphs.len() - i,
    {
        if glyphs[i].letter && glyphs[i + 2].letter && glyphs[i].c == glyphs[i + 2].c && glyphs[i
            + 1].letter {
            assert(sandwich_at(glyphs@, i as int));
            return true;
        }
        i += 1;
    }
    false
}

/// Whether a character is one of `j`, `o` and `y`.
pub open spec fn is_joy_letter(c: char) -> bool {
    c == 'j' || c == 'o' || c == 'y'
}

/// The letters `j`, `o` and `y` of a text, in the order in which they
/// stand.
pub open spec fn joy_letters(text: Seq<char>) -> Seq<char> {
    text.filter(|c: char| is_joy_letter(c))
}

/// The word that a joyful text spells.
pub open spec fn joy() -> Seq<char> {
    seq!['j', 'o', 'y']
}

/// The text holds each of `j`, `o` and `y` exactly once, and in that order.
pub open spec fn spells_joy(text: Seq<char>) -> bool {
    joy_letters(text) == joy()
}

proof fn lemma_joy_letters_step(text: Seq<char>, i: int)
    requires
        0 <= i < text.len(),
    ensures
        joy_letters(text.take(i + 1)) == if is_joy_letter(text[i]) {
            joy_letters(text.take(i)).push(text[i])
        } else {
            joy_letters(text.take(i))
        },
{
    lemma_filter_step(text, |c: char| is_joy_letter(c), i);
}

proof fn lemma_joy_letters_grow(text: Seq<char>, i: int, j: int)
    requires
        0 <= i <= j <= text.len(),
    ensures
        joy_letters(text.take(i)).len() <= joy_letters(text.take(j)).len(),
        joy_letters(text.take(i)) == joy_letters(text.take(j)).take(
            joy_letters(text.take(i)).len() as int,
        ),
    decreases j - i,
{
    if i < j {
        lemma_joy_letters_grow(text, i, j - 1);
        lemma_joy_letters_step(text, j - 1);
    }
}

proof fn lemma_wrong_letter_spoils_joy(text: Seq<char>, i: int, found: int)
    requires
        0 <= i < text.len(),
        0 <= found <= 3,
        joy_letters(text.take(i)) == joy().take(found),
        is_joy_letter(text[i]),
        found < 3 ==> text[i] != joy()[found],
    ensures
        !spells_joy(text),
{
    lemma_joy_letters_step(text, i);
    lemma_joy_letters_grow(text, i + 1, text.len() as int);
    assert(text.take(text.len() as int) == text);
    let seen = joy_letters(text.take(i + 1));
    assert(seen.len() == found + 1);
    assert(seen[found] == text[i]);
    if spells_joy(text) {
        assert(seen == joy().take(found + 1));
        assert(joy().take(found + 1)[found] == joy()[found]);
    }
}

/// Whether a text, taken as it is, holds each of `j`, `o` and `y` exactly
/// once and in that order.
pub fn joyful(text: &Vec<char>) -> (joy: bool)
    ensures
        joy == spells_joy(text@),
{
    let mut found: usize = 0;
    let mut i: usize = 0;
    while i < text.len()
        invariant
            i <= text.len(),
            found <= 3,
            joy_letters(text@.take(i as int)) == joy().take(found as int),
        decreases text.len() - i,
    {
        let c = text[i];
        proof {
            lemma_joy_letters_step(text@, i as int);
        }
        if c == 'j' {
            if found != 0 {
                proof {
                    lemma_wrong_letter_spoils_joy(text@, i as int, found as int);
                }
                return false;
            }
            assert(joy().take(1) == joy().take(0).push('j'));
            found = 1;
        } else if c == 'o' {
            if found != 1 {
                proof {
                    lemma_wrong_letter_spoils_joy(text@, i as int, found as int);
                }
                return false;
            }
            assert(joy().take(2) == joy().take(1).push('o'));
            found = 2;
        } else if c == 'y' {
            if found != 2 {
                proof {
                    lemma_wrong_letter_spoils_joy(text@, i as int, found as int);
                }
                return false;
            }
            assert(joy().take(3) == joy().take(2).push('y'));
            found = 3;
        }
        i += 1;
    }
    assert(text@.take(text.len() as int) == text@);
    assert(joy().take(3) == joy());
    assert(joy().take(found as int).len() == found);
    found == 3
}

/// What a reading of a text from left to right has found so far: the
/// numbers that are complete, and the value of the digits that it stands
/// in, if it stands in any.
pub open spec fn reading(text: Seq<char>) -> (Seq<int>, Option<int>)
    decreases text.len(),
{
    if text.len() == 0 {
        (Seq::empty(), None)
    } else {
        let (done, open) = reading(text.drop_last());
        let c = text.last();
        if is_digit(c) {
            (
                done,
                Some(
                    match open {
                        Some(value) => 10 * value + digit_value(c),
                        None => digit_value(c) as int,
                    },
                ),
            )
        } else {
            (
                match open {
                    Some(value) => done.push(value),
                    None => done,
                },
                None,
            )
        }
    }
}

/// The numbers that a reading has found once the text has ended.
pub open spec fn closed_reading(state: (Seq<int>, Option<int>)) -> Seq<int> {
    match state.1 {
        Some(value) => state.0.push(value),
        None => state.0,
    }
}

/// The numbers written in a text: the value of every longest run of ASCII
/// digits, in the order in which the runs stand.
pub open spec fn integers_of(text: Seq<char>) -> Seq<int> {
    closed_reading(reading(text))
}

/// Every number written in the text fits 32 bits with a sign.
pub open spec fn integers_fit(text: Seq<char>) -> bool {
    forall|k: int| 0 <= k < integers_of(text).len() ==> integers_of(text)[k] <= i32::MAX
}

/// The values of some machine integers.
pub open spec fn values_of(numbers: Seq<i32>) -> Seq<int> {
    Seq::new(numbers.len(), |k: int| numbers[k] as int)
}

proof fn lemma_reading_step(text: Seq<char>, i: int)
    requires
        0 <= i < text.len(),
    ensures
        reading(text.take(i + 1)) == ({
            let (done, open) = reading(text.take(i));
            let c = text[i];
            if is_digit(c) {
                (
                    done,
                    Some(
                        match open {
                            Some(value) => 10 * value + digit_value(c),
                            None => digit_value(c) as int,
                        },
                    ),
                )
            } else {
                (
                    match open {
                        Some(value) => done.push(value),
                        None => done,
                    },
                    None,
                )
            }
        }),
{
    assert(text.take(i + 1).drop_last() == text.take(i));
}

proof fn lemma_reading_never_negative(text: Seq<char>)
    ensures
        forall|k: int| 0 <= k < reading(text).0.len() ==> reading(text).0[k] >= 0,
        reading(text).1 matches Some(value) ==> value >= 0,
    decreases text.len(),
{
    if text.len() > 0 {
        lemma_reading_never_negative(text.drop_last());
    }
}

/// A number that a reading has met is still there at the end of the text,
/// as it was or grown by further digits.
proof fn lemma_large_number_stays(text: Seq<char>, i: int, j: int, bound: int)
    requires
        0 <= i <= j <= text.len(),
        bound >= 0,
        exists|k: int| 0 <= k < closed_reading(reading(text.take(i))).len() && closed_reading(
            reading(text.take(i)),
        )[k] > bound,
    ensures
        exists|k: int| 0 <= k < closed_reading(reading(text.take(j))).len() && closed_reading(
            reading(text.take(j)),
        )[k] > bound,
    decreases j - i,
{
    if i < j {
        lemma_large_number_stays(text, i, j - 1, bound);
        lemma_reading_step(text, j - 1);
        lemma_reading_never_negative(text.take(j - 1));
        let before = closed_reading(reading(text.take(j - 1)));
        let after = closed_reading(reading(text.take(j)));
        let k = choose|k: int| 0 <= k < before.len() && before[k] > bound;
        let (done, open) = reading(text.take(j - 1));
        if is_digit(text[j - 1]) {
            if k < done.len() {
                assert(after[k] == before[k]);
            } else {
                assert(after[done.len() as int] >= before[k]);
            }
        } else {
            assert(after[k] == before[k]);
        }
    }
}

/// The numbers written in a text, or `None` where one of them does not fit
/// 32 bits with a sign.
pub fn checked_integers(text: &Vec<char>) -> (found: Option<Vec<i32>>)
    ensures
        found.is_some() == integers_fit(text@),
        found matches Some(numbers) ==> values_of(numbers@) == integers_of(text@),
{
    let mut done: Vec<i32> = Vec::new();
    let mut open: Option<i32> = None;
    let mut i: usize = 0;
    while i < text.len()
        invariant
            i <= text.len(),
            values_of(done@) == reading(text@.take(i as int)).0,
            open.is_some() == reading(text@.take(i as int)).1.is_some(),
            open matches Some(value) ==> reading(text@.take(i as int)).1 == Some(value as int),
        decreases text.len() - i,
    {
        let c = text[i];
        proof {
            lemma_reading_step(text@, i as int);
            lemma_reading_never_negative(text@.take(i as int));
        }
        if is_digit_char(c) {
            let digit: i64 = (c as u32 - '0' as u32) as i64;
            let value: i64 = match open {
                Some(value) => 10 * (value as i64) + digit,
                None => digit,
            };
            if value > i32::MAX as i64 {
                proof {
                    let seen = closed_reading(reading(text@.take(i + 1)));
                    assert(seen[seen.len() - 1] == value);
                    lemma_large_number_stays(
                        text@,
                        i + 1,
                        text.len() as int,
                        i32::MAX as int,
                    );
                    assert(text@.take(text.len() as int) == text@);
                    let all = integers_of(text@);
                    let k = choose|k: int| 0 <= k < all.len() && all[k] > i32::MAX;
                    assert(integers_of(text@)[k] > i32::MAX);
                }
                return None;
            }
            open = Some(value as i32);
        } else {
            match open {
                Some(value) => {
                    done.push(value);
                    assert(values_of(done@) == reading(text@.take(i + 1)).0);
                },
                None => {},
            }
            open = None;
        }
        i += 1;
    }
    assert(text@.take(text.len() as int) == text@);
    match open {
        Some(value) => {
            done.push(value);
        },
        None => {},
    }
    assert(values_of(done@) == integers_of(text@));
    Some(done)
}

/// The sum of some numbers, or `None` where it does not fit 32 bits with a
/// sign.
pub fn checked_sum(numbers: &Vec<i32>) -> (sum: Option<i32>)
    requires
        forall|k: int| 0 <= k < numbers.len() ==> numbers[k] >= 0,
    ensures
        sum.is_some() == (sum_of(values_of(numbers@)) <= i32::MAX),
        sum matches Some(total) ==> total == sum_of(values_of(numbers@)),
{
    let mut total: i32 = 0;
    let mut i: usize = 0;
    while i < numbers.len()
        invariant
            i <= numbers.len(),
            forall|k: int| 0 <= k < numbers.len() ==> numbers[k] >= 0,
            0 <= total,
            total == sum_of(values_of(numbers@.take(i as int))),
        decreases numbers.len() - i,
    {
        proof {
            lemma_sum_step(values_of(numbers@), i as int);
            assert(values_of(numbers@).take(i + 1) == values_of(numbers@.take(i + 1)));
            assert(values_of(numbers@).take(i as int) == values_of(numbers@.take(i as int)));
        }
        if numbers[i] > i32::MAX - total {
            proof {
                lemma_sum_grows(values_of(numbers@), i + 1, numbers.len() as int);
                assert(values_of(numbers@).take(numbers.len() as int) == values_of(numbers@));
            }
            return None;
        }
        total = total + numbers[i];
        i += 1;
    }
    assert(numbers@.take(numbers.len() as int) == numbers@);
    Some(total)
}

proof fn lemma_sum_step(values: Seq<int>, i: int)
    requires
        0 <= i < values.len(),
    ensures
        sum_of(values.take(i + 1)) == sum_of(values.take(i)) + values[i],
{
    assert(values.take(i + 1).drop_last() == values.take(i));
}

proof fn lemma_sum_grows(values: Seq<int>, i: int, j: int)
    requires
        0 <= i <= j <= values.len(),
        forall|k: int| 0 <= k < values.len() ==> values[k] >= 0,
    ensures
        sum_of(values.take(i)) <= sum_of(values.take(j)),
    decreases j - i,
{
    if i < j {
        lemma_sum_grows(values, i, j - 1);
        lemma_sum_step(values, j - 1);
    }
}

/// The characters of some glyphs.
pub open spec fn glyph_chars(glyphs: Seq<Glyph>) -> Seq<char> {
    Seq::new(glyphs.len(), |i: int| glyphs[i].c)
}

/// The characters of some glyphs.
pub fn chars_in(glyphs: &Vec<Glyph>) -> (chars: Vec<char>)
    ensures
        chars@ == glyph_chars(glyphs@),
{
    let mut chars: Vec<char> = Vec::new();
    let mut i: usize = 0;
    while i < glyphs.len()
        invariant
            i <= glyphs.len(),
            chars.len() == i,
            forall|j: int| 0 <= j < i ==> chars@[j] == glyphs@[j].c,
        decreases glyphs.len() - i,
    {
        chars.push(glyphs[i].c);
        i += 1;
    }
    assert(chars@ =~= glyph_chars(glyphs@));
    chars
}

/// The answer of the nice-or-naughty test.
#[derive(Clone, Copy, Debug, PartialEq, Eq, Structural)]
pub enum NiceResult {
    Nice,
    Naughty,
}

/// Whether a character is one of the five lowercase vowels.
pub open spec fn is_vowel(c: char) -> bool {
    c == 'a' || c == 'e' || c == 'i' || c == 'o' || c == 'u'
}

/// How many vowels a text holds.
pub open spec fn vowel_count(text: Seq<char>) -> nat {
    text.filter(|c: char| is_vowel(c)).len()
}

/// The text holds one of the pairs `ab`, `cd`, `pq` and `xy`.
pub open spec fn has_forbidden_pair(text: Seq<char>) -> bool {
    contains_text(text, "ab"@) || contains_text(text, "cd"@) || contains_text(text, "pq"@)
        || contains_text(text, "xy"@)
}

/// A text is nice when its lowercase form holds three vowels or more and a
/// letter twice in a row, and the text itself holds no forbidden pair. A
/// text whose lowercase form is empty cannot be worked on.
pub open spec fn nice_outcome(lowered: Seq<Glyph>, text: Seq<char>) -> Option<NiceResult> {
    if lowered.len() == 0 {
        None
    } else if vowel_count(glyph_chars(lowered)) >= 3 && has_repeated_letter(lowered)
        && !has_forbidden_pair(text) {
        Some(NiceResult::Nice)
    } else {
        Some(NiceResult::Naughty)
    }
}

/// How many vowels a text holds.
pub fn count_vowels(text: &Vec<char>) -> (count: usize)
    ensures
        count == vowel_count(text@),
{
    let mut count: usize = 0;
    let mut i: usize = 0;
    while i < text.len()
        invariant
            i <= text.len(),
            count <= i,
            count == vowel_count(text@.take(i as int)),
        decreases text.len() - i,
    {
        proof {
            lemma_filter_step(text@, |c: char| is_vowel(c), i as int);
        }
        let c = text[i];
        if c == 'a' || c == 'e' || c == 'i' || c == 'o' || c == 'u' {
            count += 1;
        }
        i += 1;
    }
    assert(text@.take(text.len() as int) == text@);
    count
}

/// Whether a text holds one of the forbidden pairs.
pub fn forbidden_pair_in(text: &Vec<char>) -> (found: bool)
    ensures
        found == has_forbidden_pair(text@),
{
    contains(text, &chars_of("ab")) || contains(text, &chars_of("cd")) || contains(
        text,
        &chars_of("pq"),
    ) || contains(text, &chars_of("xy"))
}

/// The nice-or-naughty test on a text that has been read: the glyphs of
/// its lowercase form, and its characters as they are.
pub fn nice_verdict(lowered: &Vec<Glyph>, text: &Vec<char>) -> (verdict: Option<NiceResult>)
    ensures
        verdict == nice_outcome(lowered@, text@),
{
    if lowered.len() == 0 {
        return None;
    }
    let lowered_chars = chars_in(lowered);
    let vowels = count_vowels(&lowered_chars);
    let repeated = repeated_letter_in(lowered);
    let forbidden = forbidden_pair_in(text);
    if vowels >= 3 && repeated && !forbidden {
        Some(NiceResult::Nice)
    } else {
        Some(NiceResult::Naughty)
    }
}

/// The nice-or-naughty test.
pub fn nice(input: &str) -> (verdict: Option<NiceResult>)
    ensures
        verdict == nice_outcome(glyphs_of(lowercase_of(input@)), input@),
{
    let lowered = to_lowercase(input);
    let lowered_chars = chars_of(lowered.as_str());
    let lowered_glyphs = read_glyphs(&lowered_chars);
    let text = chars_of(input);
    nice_verdict(&lowered_glyphs, &text)
}

/// The status that goes with an answer of the nice-or-naughty test.
pub fn nice_status(verdict: NiceResult) -> (status: Status)
    ensures
        status == if verdict == NiceResult::Nice {
            Status::Success
        } else {
            Status::BadRequest
        },
{
    match verdict {
        NiceResult::Nice => Status::Success,
        NiceResult::Naughty => Status::BadRequest,
    }
}

/// Whether a regular expression matches somewhere in a text, or `None`
/// where the expression is not one that the regex crate compiles.
pub uninterp spec fn pattern_found(pattern: Seq<char>, text: Seq<char>) -> Option<bool>;

/// The SHA-256 digest of a text's UTF-8 bytes, written in hexadecimal.
pub uninterp spec fn sha256_hex(text: Seq<char>) -> Seq<char>;

/// `regex::Regex::new` on the pattern and `Regex::is_match` on the text.
/// Compiling may fail, which gives `None`; a compiled expression answers
/// for every text. The answer depends on the two texts alone and is named,
/// not spelt out.
#[verifier::external_body]
pub(crate) fn find_pattern(pattern: &str, text: &str) -> (found: Option<bool>)
    ensures
        found == pattern_found(pattern@, text@),
{
    match regex::Regex::new(pattern) {
        Ok(expression) => Some(expression.is_match(text)),
        Err(_) => None,
    }
}

/// `sha256::digest` on a string slice: the digest of its bytes as 64
/// hexadecimal digits. The digest is named, not spelt out; its length is
/// stated.
#[verifier::external_body]
pub(crate) fn digest_hex(text: &str) -> (hex: String)
    ensures
        hex@ == sha256_hex(text@),
        hex@.len() == 64,
{
    sha256::digest(text)
}

/// What the password game says of a text: the first rule that it breaks,
/// or that it breaks none.
#[derive(Clone, Copy, Debug, PartialEq, Eq, Structural)]
pub enum Verdict {
    /// Fewer than seven bytes.
    TooShort,
    /// No uppercase letter, no lowercase letter or no digit.
    FewKinds,
    /// Fewer than five digits.
    FewDigits,
    /// The numbers in the text do not add up to 2023.
    BadSum,
    /// The text does not spell joy.
    Joyless,
    /// No letter between two equal letters.
    NoSandwich,
    /// No character between U+2980 and U+2BFF.
    OutOfRange,
    /// No emoji.
    NoEmoji,
    /// The digest of the text does not end in `a`.
    NotBrewer,
    /// Every rule is kept.
    Nice,
}

/// The expression that finds an emoji.
pub open spec fn emoji_pattern() -> Seq<char> {
    "\\p{Emoji_Presentation}"@
}

/// Some character of the text is an uppercase letter.
pub open spec fn has_upper(glyphs: Seq<Glyph>) -> bool {
    exists|i: int| 0 <= i < glyphs.len() && glyphs[i].upper
}

/// Some character of the text is a lowercase letter.
pub open spec fn has_lower(glyphs: Seq<Glyph>) -> bool {
    exists|i: int| 0 <= i < glyphs.len() && glyphs[i].lower
}

/// How many ASCII digits a text holds.
pub open spec fn digit_count(text: Seq<char>) -> nat {
    text.filter(|c: char| is_digit(c)).len()
}

/// Whether a character lies between U+2980 and U+2BFF.
pub open spec fn in_symbol_range(c: char) -> bool {
    '\u{2980}' <= c <= '\u{2BFF}'
}

/// Some character of the text lies between U+2980 and U+2BFF.
pub open spec fn has_symbol(text: Seq<char>) -> bool {
    exists|i: int| 0 <= i < text.len() && in_symbol_range(text[i])
}

/// The password game. The rules are tried in this order and the first one
/// that fails gives the verdict. There is no verdict where a number in the
/// text or the sum of the numbers does not fit 32 bits with a sign, where
/// the emoji expression does not compile, or where the digest is empty.
pub open spec fn game_outcome(
    byte_len: nat,
    glyphs: Seq<Glyph>,
    lowered: Seq<char>,
    emoji: Option<bool>,
    digest: Seq<char>,
) -> Option<Verdict> {
    let text = glyph_chars(glyphs);
    if byte_len < 7 {
        Some(Verdict::TooShort)
    } else if !has_upper(glyphs) || !has_lower(glyphs) || digit_count(text) == 0 {
        Some(Verdict::FewKinds)
    } else if digit_count(text) < 5 {
        Some(Verdict::FewDigits)
    } else if !integers_fit(text) || sum_of(integers_of(text)) > i32::MAX {
        None
    } else if sum_of(integers_of(text)) != 2023 {
        Some(Verdict::BadSum)
    } else if !spells_joy(lowered) {
        Some(Verdict::Joyless)
    } else if !has_sandwich(glyphs) {
        Some(Verdict::NoSandwich)
    } else if !has_symbol(text) {
        Some(Verdict::OutOfRange)
    } else if emoji is None {
        None
    } else if emoji == Some(false) {
        Some(Verdict::NoEmoji)
    } else if digest.len() == 0 {
        None
    } else if digest.last() != 'a' {
        Some(Verdict::NotBrewer)
    } else {
        Some(Verdict::Nice)
    }
}

/// Whether some character is an uppercase letter.
pub fn upper_in(glyphs: &Vec<Glyph>) -> (found: bool)
    ensures
        found == has_upper(glyphs@),
{
    let mut i: usize = 0;
    while i < glyphs.len()
        invariant
            i <= glyphs.len(),
            forall|j: int| 0 <= j < i ==> !glyphs@[j].upper,
        decreases glyphs.len() - i,
    {
        if glyphs[i].upper {
            return true;
        }
        i += 1;
    }
    false
}

/// Whether some character is a lowercase letter.
pub fn lower_in(glyphs: &Vec<Glyph>) -> (found: bool)
    ensures
        found == has_lower(glyphs@),
{
    let mut i: usize = 0;
    while i < glyphs.len()
        invariant
            i <= glyphs.len(),
            forall|j: int| 0 <= j < i ==> !glyphs@[j].lower,
        decreases glyphs.len() - i,
    {
        if glyphs[i].lower {
            return true;
        }
        i += 1;
    }
    false
}

/// How many ASCII digits a text holds.
pub fn count_digits(text: &Vec<char>) -> (count: usize)
    ensures
        count == digit_count(text@),
{
    let mut count: usize = 0;
    let mut i: usize = 0;
    while i < text.len()
        invariant
            i <= text.len(),
            count <= i,
            count == digit_count(text@.take(i as int)),
        decreases text.len() - i,
    {
        proof {
            lemma_filter_step(text@, |c: char| is_digit(c), i as int);
        }
        if is_digit_char(text[i]) {
            count += 1;
        }
        i += 1;
    }
    assert(text@.take(text.len() as int) == text@);
    count
}

/// Whether some character lies between U+2980 and U+2BFF.
pub fn symbol_in(text: &Vec<char>) -> (found: bool)
    ensures
        found == has_symbol(text@),
{
    let mut i: usize = 0;
    while i < text.len()
        invariant
            i <= text.len(),
            forall|j: int| 0 <= j < i ==> !in_symbol_range(text@[j]),
        decreases text.len() - i,
    {
        let c = text[i];
        if '\u{2980}' <= c && c <= '\u{2BFF}' {
            return true;
        }
        i += 1;
    }
    false
}

/// The sum of the numbers written in a text, or `None` where a number or
/// the sum does not fit 32 bits with a sign.
pub fn integer_sum(text: &Vec<char>) -> (sum: Option<i32>)
    ensures
        sum.is_some() == (integers_fit(text@) && sum_of(integers_of(text@)) <= i32::MAX),
        sum matches Some(total) ==> total == sum_of(integers_of(text@)),
{
    match checked_integers(text) {
        Some(numbers) => {
            proof {
                lemma_reading_never_negative(text@);
                assert forall|k: int| 0 <= k < numbers.len() implies numbers[k] >= 0 by {
                    assert(values_of(numbers@)[k] == integers_of(text@)[k]);
                }
            }
            checked_sum(&numbers)
        },
        None => None,
    }
}

/// The password game on a text that has been read: its length in bytes,
/// its glyphs, the characters of its lowercase form, whether an emoji was
/// found in it, and its digest.
pub fn game_verdict(
    byte_len: usize,
    glyphs: &Vec<Glyph>,
    lowered: &Vec<char>,
    emoji: Option<bool>,
    digest: &Vec<char>,
) -> (verdict: Option<Verdict>)
    ensures
        verdict == game_outcome(byte_len as nat, glyphs@, lowered@, emoji, digest@),
{
    let text = chars_in(glyphs);
    if byte_len < 7 {
        return Some(Verdict::TooShort);
    }
    let digits = count_digits(&text);
    if !upper_in(glyphs) || !lower_in(glyphs) || digits == 0 {
        return Some(Verdict::FewKinds);
    }
    if digits < 5 {
        return Some(Verdict::FewDigits);
    }
    match integer_sum(&text) {
        None => {
            return None;
        },
        Some(total) => {
            if total != 2023 {
                return Some(Verdict::BadSum);
            }
        },
    }
    if !joyful(lowered) {
        return Some(Verdict::Joyless);
    }
    if !sandwich_in(glyphs) {
        return Some(Verdict::NoSandwich);
    }
    if !symbol_in(&text) {
        return Some(Verdict::OutOfRange);
    }
    match emoji {
        None => {
            return None;
        },
        Some(found) => {
            if !found {
                return Some(Verdict::NoEmoji);
            }
        },
    }
    if digest.len() == 0 {
        return None;
    }
    if digest[digest.len() - 1] != 'a' {
        return Some(Verdict::NotBrewer);
    }
    Some(Verdict::Nice)
}

/// The password game. The length that the first rule tests is the length
/// of the text in bytes.
pub fn game(input: &str) -> (verdict: Option<Verdict>)
    ensures
        verdict == game_outcome(
            input.len() as nat,
            glyphs_of(input@),
            lowercase_of(input@),
            pattern_found(emoji_pattern(), input@),
            sha256_hex(input@),
        ),
{
    let text = chars_of(input);
    let glyphs = read_glyphs(&text);
    let lowered = to_lowercase(input);
    let lowered_chars = chars_of(lowered.as_str());
    let emoji = find_pattern("\\p{Emoji_Presentation}", input);
    let digest = digest_hex(input);
    let digest_chars = chars_of(digest.as_str());
    game_verdict(input.len(), &glyphs, &lowered_chars, emoji, &digest_chars)
}

impl Verdict {
    /// Whether the text passed.
    pub fn result(&self) -> (result: NiceResult)
        ensures
            result == if *self == Verdict::Nice {
                NiceResult::Nice
            } else {
                NiceResult::Naughty
            },
    {
        match self {
            Verdict::Nice => NiceResult::Nice,
            _ => NiceResult::Naughty,
        }
    }

    /// The status of the answer.
    pub open spec fn status_of(self) -> Status {
        match self {
            Verdict::TooShort => Status::BadRequest,
            Verdict::FewKinds => Status::BadRequest,
            Verdict::FewDigits => Status::BadRequest,
            Verdict::BadSum => Status::BadRequest,
            Verdict::Joyless => Status::NotAcceptable,
            Verdict::NoSandwich => Status::UnavailableForLegalReasons,
            Verdict::OutOfRange => Status::RangeNotSatisfiable,
            Verdict::NoEmoji => Status::UpgradeRequired,
            Verdict::NotBrewer => Status::ImATeapot,
            Verdict::Nice => Status::Success,
        }
    }

    /// The reason given in the answer.
    pub open spec fn reason_of(self) -> Seq<char> {
        match self {
            Verdict::TooShort => "8 chars"@,
            Verdict::FewKinds => "more types of chars"@,
            Verdict::FewDigits => "55555"@,
            Verdict::BadSum => "math is hard"@,
            Verdict::Joyless => "not joyful enough"@,
            Verdict::NoSandwich => "illegal: no sandwich"@,
            Verdict::OutOfRange => "outranged"@,
            Verdict::NoEmoji => "😳"@,
            Verdict::NotBrewer => "not a coffee brewer"@,
            Verdict::Nice => "that's a nice password"@,
        }
    }

    /// The status of the answer.
    pub fn status(&self) -> (status: Status)
        ensures
            status == self.status_of(),
    {
        match self {
            Verdict::TooShort => Status::BadRequest,
            Verdict::FewKinds => Status::BadRequest,
            Verdict::FewDigits => Status::BadRequest,
            Verdict::BadSum => Status::BadRequest,
            Verdict::Joyless => Status::NotAcceptable,
            Verdict::NoSandwich => Status::UnavailableForLegalReasons,
            Verdict::OutOfRange => Status::RangeNotSatisfiable,
            Verdict::NoEmoji => Status::UpgradeRequired,
            Verdict::NotBrewer => Status::ImATeapot,
            Verdict::Nice => Status::Success,
        }
    }

    /// The reason given in the answer.
    pub fn reason(&self) -> (reason: String)
        ensures
            reason@ == self.reason_of(),
    {
        match self {
            Verdict::TooShort => "8 chars".to_owned(),
            Verdict::FewKinds => "more types of chars".to_owned(),
            Verdict::FewDigits => "55555".to_owned(),
            Verdict::BadSum => "math is hard".to_owned(),
            Verdict::Joyless => "not joyful enough".to_owned(),
            Verdict::NoSandwich => "illegal: no sandwich".to_owned(),
            Verdict::OutOfRange => "outranged".to_owned(),
            Verdict::NoEmoji => "😳".to_owned(),
            Verdict::NotBrewer => "not a coffee brewer".to_owned(),
            Verdict::Nice => "that's a nice password".to_owned(),
        }
    }
}

/// The password endpoints.
pub struct Day15 {}

impl Day15 {
    /// Whether the lowercase form of the text holds a letter twice in a row
    /// before its last character.
    pub fn has_letters_that_appear_twice_in_a_row(input: &str) -> (found: bool)
        ensures
            found == has_repeated_letter(glyphs_of(lowercase_of(input@))),
    {
        let lowered = to_lowercase(input);
        let chars = chars_of(lowered.as_str());
        let glyphs = read_glyphs(&chars);
        repeated_letter_in(&glyphs)
    }

    /// Whether the lowercase form of the text holds each of `j`, `o` and
    /// `y` exactly once and in that order.
    pub fn is_joyful(input: &str) -> (joy: bool)
        ensures
            joy == spells_joy(lowercase_of(input@)),
    {
        let lowered = to_lowercase(input);
        let chars = chars_of(lowered.as_str());
        joyful(&chars)
    }

    /// The numbers written in the text: the value of every longest run of
    /// ASCII digits, in order. Each of them has to fit 32 bits with a sign.
    pub fn find_integers(input: &str) -> (numbers: Vec<i32>)
        requires
            integers_fit(input@),
        ensures
            values_of(numbers@) == integers_of(input@),
    {
        let chars = chars_of(input);
        match checked_integers(&chars) {
            Some(numbers) => numbers,
            None => Vec::new(),
        }
    }

    /// Whether the text holds a letter, a letter and the first letter
    /// again, one after the other.
    pub fn contains_sandwich(input: &str) -> (found: bool)
        ensures
            found == has_sandwich(glyphs_of(input@)),
    {
        let chars = chars_of(input);
        let glyphs = read_glyphs(&chars);
        sandwich_in(&glyphs)
    }
}

} // verus!
