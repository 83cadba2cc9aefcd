//! Characters and decimal numbers: the small text operations that the
//! handlers share, each with an exact statement of its result.

use vstd::prelude::*;

verus! {

/// The characters of a string slice, in order.
pub fn chars_of(s: &str) -> (v: Vec<char>)
    ensures
        v@ == s@,
{
    let mut v: Vec<char> = Vec::new();
    for c in it: s.chars()
        invariant
            v@ == it.seq().take(it.index() as int),
            it.seq() == s@,
    {
        v.push(c);
    }
    v
}

/// Filtering one element more either appends that element or changes
/// nothing.
pub proof fn lemma_filter_step<A>(s: Seq<A>, keep: spec_fn(A) -> bool, i: int)
    requires
        0 <= i < s.len(),
    ensures
        s.take(i + 1).filter(keep) == if keep(s[i]) {
            s.take(i).filter(keep).push(s[i])
        } else {
            s.take(i).filter(keep)
        },
{
    reveal(Seq::filter);
    assert(s.take(i + 1).drop_last() == s.take(i));
}

/// Whether two sequences of characters are the same.
pub fn same_chars(a: &Vec<char>, b: &Vec<char>) -> (same: bool)
    ensures
        same == (a@ == b@),
{
    if a.len() != b.len() {
        return false;
    }
    let mut i: usize = 0;
    while i < a.len()
        invariant
            i <= a.len(),
            a.len() == b.len(),
            a@.take(i as int) == b@.take(i as int),
        decreases a.len() - i,
    {
        if a[i] != b[i] {
            return false;
        }
        assert(a@.take(i + 1) == a@.take(i as int).push(a@[i as int]));
        assert(b@.take(i + 1) == b@.take(i as int).push(b@[i as int]));
        i += 1;
    }
    assert(a@.take(a.len() as int) == a@);
    assert(b@.take(b.len() as int) == b@);
    true
}

/// Whether two string slices hold the same text.
pub fn same_text(a: &str, b: &str) -> (same: bool)
    ensures
        same == (a@ == b@),
{
    let x = chars_of(a);
    let y = chars_of(b);
    same_chars(&x, &y)
}

/// `part` stands in `text` at position `i`.
pub open spec fn occurs_at(text: Seq<char>, part: Seq<char>, i: int) -> bool {
    0 <= i && i + part.len() <= text.len() && text.subrange(i, i + part.len()) == part
}

/// `part` stands somewhere in `text`.
pub open spec fn contains_text(text: Seq<char>, part: Seq<char>) -> bool {
    exists|i: int| occurs_at(text, part, i)
}

/// Whether `part` stands in `text` at position `i`.
pub fn found_at(text: &Vec<char>, part: &Vec<char>, i: usize) -> (found: bool)
    ensures
        found == occurs_at(text@, part@, i as int),
{
    if i > text.len() || part.len() > text.len() - i {
        return false;
    }
    let mut k: usize = 0;
    while k < part.len()
        invariant
            k <= part.len(),
            i + part.len() <= text.len(),
            text@.subrange(i as int, i + k) == part@.take(k as int),
        decreases part.len() - k,
    {
        if text[i + k] != part[k] {
            assert(text@.subrange(i as int, i + part.len())[k as int] != part@[k as int]);
            return false;
        }
        assert(text@.subrange(i as int, i + k + 1) == text@.subrange(i as int, i + k).push(
            text@[i + k],
        ));
        assert(part@.take(k + 1) == part@.take(k as int).push(part@[k as int]));
        k += 1;
    }
    assert(part@.take(part.len() as int) == part@);
    true
}

/// Whether `part` stands somewhere in `text`.
pub fn contains(text: &Vec<char>, part: &Vec<char>) -> (found: bool)
    ensures
        found == contains_text(text@, part@),
{
    if part.len() > text.len() {
        return false;
    }
    let last: usize = text.len() - part.len();
    let mut i: usize = 0;
    while i < last
        invariant
            last == text.len() - part.len(),
            i <= last,
            forall|j: int| 0 <= j < i ==> !occurs_at(text@, part@, j),
        decreases last - i,
    {
        if found_at(text, part, i) {
            return true;
        }
        i += 1;
    }
    found_at(text, part, last)
}

/// `String::push` of std: appends one character to the end of the string.
#[verifier::external_body]
pub(crate) fn push_char(s: &mut String, c: char)
    ensures
        final(s)@ == old(s)@.push(c),
{
    s.push(c)
}

/// The string made of the given characters, in order.
pub fn string_of(chars: &Vec<char>) -> (s: String)
    ensures
        s@ == chars@,
{
    let mut s = String::new();
    let mut i: usize = 0;
    while i < chars.len()
        invariant
            i <= chars.len(),
            s@ == chars@.take(i as int),
        decreases chars.len() - i,
    {
        push_char(&mut s, chars[i]);
        i += 1;
    }
    s
}

/// Whether Unicode counts the character as alphabetic.
pub uninterp spec fn is_letter(c: char) -> bool;

/// Whether Unicode counts the character as an uppercase letter.
pub uninterp spec fn is_upper(c: char) -> bool;

/// Whether Unicode counts the character as a lowercase letter.
pub uninterp spec fn is_lower(c: char) -> bool;

/// The lowercase form of a text by Unicode's case mapping.
pub uninterp spec fn lowercase_of(text: Seq<char>) -> Seq<char>;

/// `char::is_alphabetic` of std, which goes by Unicode's `Alphabetic`
/// property. The result is named, not spelt out.
#[verifier::external_body]
pub(crate) fn char_is_letter(c: char) -> (letter: bool)
    ensures
        letter == is_letter(c),
{
    c.is_alphabetic()
}

/// `char::is_uppercase` of std, which goes by Unicode's `Uppercase`
/// property. The result is named, not spelt out.
#[verifier::external_body]
pub(crate) fn char_is_upper(c: char) -> (upper: bool)
    ensures
        upper == is_upper(c),
{
    c.is_uppercase()
}

/// `char::is_lowercase` of std, which goes by Unicode's `Lowercase`
/// property. The result is named, not spelt out.
#[verifier::external_body]
pub(crate) fn char_is_lower(c: char) -> (lower: bool)
    ensures
        lower == is_lower(c),
{
    c.is_lowercase()
}

/// `str::to_lowercase` of std: the text with every character replaced by
/// its lowercase mapping. The result is named, not spelt out.
#[verifier::external_body]
pub(crate) fn to_lowercase(text: &str) -> (lowered: String)
    ensures
        lowered@ == lowercase_of(text@),
{
    text.to_lowercase()
}

/// Whether a character is one of the ten ASCII digits.
pub fn is_digit_char(c: char) -> (digit: bool)
    ensures
        digit == is_digit(c),
{
    '0' <= c && c <= '9'
}

/// The character that writes the digit `d` (below ten).
pub open spec fn digit_char(d: nat) -> char {
    if d == 0 {
        '0'
    } else if d == 1 {
        '1'
    } else if d == 2 {
        '2'
    } else if d == 3 {
        '3'
    } else if d == 4 {
        '4'
    } else if d == 5 {
        '5'
    } else if d == 6 {
        '6'
    } else if d == 7 {
        '7'
    } else if d == 8 {
        '8'
    } else {
        '9'
    }
}

/// Whether `c` is one of the ten ASCII digits.
pub open spec fn is_digit(c: char) -> bool {
    '0' <= c <= '9'
}

/// The value of an ASCII digit.
pub open spec fn digit_value(c: char) -> nat
    recommends
        is_digit(c),
{
    (c as u32 - '0' as u32) as nat
}

/// The decimal writing of a natural number, without leading zeros.
pub open spec fn decimal(n: nat) -> Seq<char>
    decreases n,
{
    if n < 10 {
        seq![digit_char(n)]
    } else {
        decimal(n / 10).push(digit_char(n % 10))
    }
}

/// The decimal writing of an integer: a minus sign before a negative one.
pub open spec fn signed_decimal(n: int) -> Seq<char> {
    if n < 0 {
        seq!['-'] + decimal((-n) as nat)
    } else {
        decimal(n as nat)
    }
}

fn digit_of(d: u8) -> (c: char)
    requires
        d < 10,
    ensures
        c == digit_char(d as nat),
{
    if d == 0 {
        '0'
    } else if d == 1 {
        '1'
    } else if d == 2 {
        '2'
    } else if d == 3 {
        '3'
    } else if d == 4 {
        '4'
    } else if d == 5 {
        '5'
    } else if d == 6 {
        '6'
    } else if d == 7 {
        '7'
    } else if d == 8 {
        '8'
    } else {
        '9'
    }
}

/// The digits of `n`, most significant first.
pub fn digits_of(n: u128) -> (v: Vec<char>)
    ensures
        v@ == decimal(n as nat),
    decreases n,
{
    if n < 10 {
        let mut v: Vec<char> = Vec::new();
        v.push(digit_of(n as u8));
        v
    } else {
        let mut v = digits_of(n / 10);
        v.push(digit_of((n % 10) as u8));
        v
    }
}

/// Writes an unsigned number in decimal.
pub fn u64_to_string(n: u64) -> (s: String)
    ensures
        s@ == decimal(n as nat),
{
    let v = digits_of(n as u128);
    string_of(&v)
}

/// Writes a signed number in decimal.
pub fn i64_to_string(n: i64) -> (s: String)
    ensures
        s@ == signed_decimal(n as int),
{
    if n < 0 {
        let magnitude: u128 = (-(n as i128)) as u128;
        let digits = digits_of(magnitude);
        let mut v: Vec<char> = Vec::new();
        v.push('-');
        let mut i: usize = 0;
        while i < digits.len()
            invariant
                i <= digits.len(),
                v@ == seq!['-'] + digits@.take(i as int),
            decreases digits.len() - i,
        {
            v.push(digits[i]);
            i += 1;
        }
        assert(digits@.take(digits.len() as int) == digits@);
        string_of(&v)
    } else {
        let v = digits_of(n as u128);
        string_of(&v)
    }
}

/// The smaller of two numbers.
pub open spec fn least(a: int, b: int) -> int {
    if a <= b {
        a
    } else {
        b
    }
}

/// The sum of some numbers.
pub open spec fn sum_of(values: Seq<int>) -> int
    decreases values.len(),
{
    if values.len() == 0 {
        0
    } else {
        sum_of(values.drop_last()) + values.last()
    }
}

/// What an optional text holds.
pub open spec fn text_view(text: Option<String>) -> Option<Seq<char>> {
    match text {
        Some(text) => Some(text@),
        None => None,
    }
}

/// The texts that some strings hold.
pub open spec fn texts_of(strings: Seq<String>) -> Seq<Seq<char>> {
    Seq::new(strings.len(), |i: int| strings[i]@)
}

/// The texts that some rows of characters hold.
pub open spec fn rows(lines: Seq<Vec<char>>) -> Seq<Seq<char>> {
    Seq::new(lines.len(), |i: int| lines[i]@)
}

/// The pieces of a text between the occurrences of a separator: one piece
/// more than there are separators, empty pieces included.
pub open spec fn split_text(text: Seq<char>, sep: char) -> Seq<Seq<char>>
    decreases text.len(),
{
    if text.len() == 0 {
        seq![Seq::empty()]
    } else {
        let pieces = split_text(text.drop_last(), sep);
        if text.last() == sep {
            pieces.push(Seq::empty())
        } else {
            pieces.drop_last().push(pieces.last().push(text.last()))
        }
    }
}

/// Some pieces put together again, with a separator between each two.
pub open spec fn join_text(pieces: Seq<Seq<char>>, sep: char) -> Seq<char>
    decreases pieces.len(),
{
    if pieces.len() == 0 {
        Seq::empty()
    } else if pieces.len() == 1 {
        pieces[0]
    } else {
        join_text(pieces.drop_last(), sep).push(sep) + pieces.last()
    }
}

/// Splitting loses nothing and leaves no separator behind: there is a
/// piece, the pieces joined by the separator are the text again, and no
/// piece holds the separator.
pub proof fn lemma_split_rejoins(text: Seq<char>, sep: char)
    ensures
        split_text(text, sep).len() >= 1,
        join_text(split_text(text, sep), sep) == text,
        forall|i: int, j: int|
            0 <= i < split_text(text, sep).len() && 0 <= j < split_text(text, sep)[i].len()
                ==> split_text(text, sep)[i][j] != sep,
    decreases text.len(),
{
    if text.len() > 0 {
        let shorter = text.drop_last();
        lemma_split_rejoins(shorter, sep);
        let before = split_text(shorter, sep);
        let after = split_text(text, sep);
        if text.last() == sep {
            assert(after.drop_last() == before);
            assert(join_text(after, sep) == join_text(before, sep).push(sep) + Seq::<char>::empty());
            assert(join_text(after, sep) == shorter.push(sep));
            assert(shorter.push(sep) == text);
        } else {
            let grown = before.last().push(text.last());
            assert(after == before.drop_last().push(grown));
            if before.len() == 1 {
                assert(before[0] == shorter);
                assert(after[0] == grown);
                assert(grown == text);
            } else {
                assert(after.drop_last() == before.drop_last());
                assert(join_text(after, sep) == join_text(before.drop_last(), sep).push(sep)
                    + grown);
                assert(join_text(before, sep) == join_text(before.drop_last(), sep).push(sep)
                    + before.last());
                assert(join_text(after, sep) == join_text(before, sep).push(text.last()));
                assert(shorter.push(text.last()) == text);
            }
        }
    } else {
        assert(join_text(split_text(text, sep), sep) == text);
    }
}

/// Cuts a text at every occurrence of a separator.
pub fn split(text: &Vec<char>, sep: char) -> (pieces: Vec<Vec<char>>)
    ensures
        rows(pieces@) == split_text(text@, sep),
{
    let mut pieces: Vec<Vec<char>> = Vec::new();
    let mut piece: Vec<char> = Vec::new();
    let mut i: usize = 0;
    while i < text.len()
        invariant
            i <= text.len(),
            rows(pieces@).push(piece@) == split_text(text@.take(i as int), sep),
        decreases text.len() - i,
    {
        let c = text[i];
        let ghost before = split_text(text@.take(i as int), sep);
        proof {
            assert(text@.take(i + 1).drop_last() == text@.take(i as int));
            assert(before.last() == piece@);
            assert(before.drop_last() == rows(pieces@));
        }
        if c == sep {
            let ghost old_rows = rows(pieces@);
            pieces.push(piece);
            piece = Vec::new();
            assert(rows(pieces@) == before);
        } else {
            piece.push(c);
        }
        assert(rows(pieces@).push(piece@) == split_text(text@.take(i + 1), sep));
        i += 1;
    }
    assert(text@.take(text.len() as int) == text@);
    let ghost all = rows(pieces@).push(piece@);
    pieces.push(piece);
    assert(rows(pieces@) == all);
    pieces
}

/// Every character of the text is an ASCII digit.
pub open spec fn all_digits(text: Seq<char>) -> bool {
    forall|i: int| 0 <= i < text.len() ==> is_digit(#[trigger] text[i])
}

/// The number that a run of digits writes in decimal. Leading zeros do not
/// count, and no digits at all write zero.
pub open spec fn digits_value(text: Seq<char>) -> nat
    decreases text.len(),
{
    if text.len() == 0 {
        0
    } else {
        10 * digits_value(text.drop_last()) + digit_value(text.last())
    }
}

/// The integer that a text writes in decimal: digits, one at least, with
/// `+` allowed in front of them and, where `signed` holds, `-` as well.
/// Any other text writes no integer.
pub open spec fn integer_of(text: Seq<char>, signed: bool) -> Option<int> {
    if text.len() == 0 {
        None
    } else if text[0] == '+' {
        if text.len() > 1 && all_digits(text.skip(1)) {
            Some(digits_value(text.skip(1)) as int)
        } else {
            None
        }
    } else if text[0] == '-' && signed {
        if text.len() > 1 && all_digits(text.skip(1)) {
            Some(-(digits_value(text.skip(1)) as int))
        } else {
            None
        }
    } else if all_digits(text) {
        Some(digits_value(text) as int)
    } else {
        None
    }
}

/// The integer that a text writes, where it lies between `low` and `high`.
pub open spec fn integer_within(text: Seq<char>, signed: bool, low: int, high: int) -> Option<
    int,
> {
    match integer_of(text, signed) {
        Some(value) => if low <= value <= high {
            Some(value)
        } else {
            None
        },
        None => None,
    }
}

proof fn lemma_digits_value_step(text: Seq<char>, i: int)
    requires
        0 <= i < text.len(),
    ensures
        digits_value(text.take(i + 1)) == 10 * digits_value(text.take(i)) + digit_value(text[i]),
{
    assert(text.take(i + 1).drop_last() == text.take(i));
}

proof fn lemma_digits_value_grows(text: Seq<char>, i: int, j: int)
    requires
        0 <= i <= j <= text.len(),
    ensures
        digits_value(text.take(i)) <= digits_value(text.take(j)),
    decreases j - i,
{
    if i < j {
        lemma_digits_value_grows(text, i, j - 1);
        lemma_digits_value_step(text, j - 1);
    }
}

/// The value of a run of digits, or `None` where a character is no digit
/// or the value is above `limit`.
fn read_digits(text: &Vec<char>, from: usize, limit: u128) -> (value: Option<u128>)
    requires
        from <= text.len(),
        limit <= u64::MAX,
    ensures
        value.is_some() == (all_digits(text@.skip(from as int)) && digits_value(
            text@.skip(from as int),
        ) <= limit),
        value matches Some(v) ==> v == digits_value(text@.skip(from as int)),
{
    let ghost tail = text@.skip(from as int);
    let mut value: u128 = 0;
    let mut i: usize = from;
    while i < text.len()
        invariant
            from <= i <= text.len(),
            limit <= u64::MAX,
            tail == text@.skip(from as int),
            all_digits(tail.take(i - from)),
            value == digits_value(tail.take(i - from)),
            value <= limit,
        decreases text.len() - i,
    {
        let c = text[i];
        assert(tail[i - from] == c);
        if !is_digit_char(c) {
            return None;
        }
        proof {
            lemma_digits_value_step(tail, i - from);
        }
        let digit: u128 = (c as u32 - '0' as u32) as u128;
        value = 10 * value + digit;
        if value > limit {
            proof {
                lemma_digits_value_grows(tail, i - from + 1, tail.len() as int);
                assert(tail.take(tail.len() as int) == tail);
            }
            return None;
        }
        assert forall|k: int| 0 <= k < i - from + 1 implies is_digit(
            #[trigger] tail.take(i - from + 1)[k],
        ) by {
            if k < i - from {
                assert(tail.take(i - from)[k] == tail[k]);
            }
        }
        i += 1;
    }
    assert(tail.take(tail.len() as int) == tail);
    Some(value)
}

/// Reads a decimal integer between `low` and `high`.
fn read_integer(text: &Vec<char>, signed: bool, low: i128, high: i128) -> (value: Option<i128>)
    requires
        -(u64::MAX as int) <= low <= 0 <= high <= u64::MAX,
    ensures
        value.is_some() == integer_within(text@, signed, low as int, high as int).is_some(),
        value matches Some(v) ==> Some(v as int) == integer_within(
            text@,
            signed,
            low as int,
            high as int,
        ),
{
    if text.len() == 0 {
        return None;
    }
    let first = text[0];
    if first == '+' {
        if text.len() == 1 {
            return None;
        }
        match read_digits(text, 1, high as u128) {
            Some(v) => Some(v as i128),
            None => None,
        }
    } else if first == '-' && signed {
        if text.len() == 1 {
            return None;
        }
        match read_digits(text, 1, (-low) as u128) {
            Some(v) => Some(-(v as i128)),
            None => None,
        }
    } else {
        assert(text@.skip(0) == text@);
        match read_digits(text, 0, high as u128) {
            Some(v) => Some(v as i128),
            None => None,
        }
    }
}

proof fn lemma_decimal_is_digits(n: nat)
    ensures
        decimal(n).len() >= 1,
        all_digits(decimal(n)),
        digits_value(decimal(n)) == n,
    decreases n,
{
    if n < 10 {
        assert(decimal(n).drop_last() =~= Seq::<char>::empty());
        assert(digits_value(decimal(n).drop_last()) == 0);
        assert(digit_value(digit_char(n)) == n);
    } else {
        lemma_decimal_is_digits(n / 10);
        let front = decimal(n / 10);
        let all = decimal(n);
        assert(all.drop_last() =~= front);
        assert(digit_value(digit_char(n % 10)) == n % 10);
        assert forall|i: int| 0 <= i < all.len() implies is_digit(#[trigger] all[i]) by {
            if i < front.len() {
                assert(all[i] == front[i]);
            }
        }
    }
}

/// A number that was written in decimal reads back as itself, with a sign
/// or without.
pub proof fn law_written_number_reads_back(n: int)
    ensures
        integer_of(signed_decimal(n), true) == Some(n),
        n >= 0 ==> integer_of(decimal(n as nat), false) == Some(n),
{
    if n < 0 {
        let digits = decimal((-n) as nat);
        lemma_decimal_is_digits((-n) as nat);
        let text = signed_decimal(n);
        assert(text[0] == '-');
        assert(text.skip(1) =~= digits);
    } else {
        lemma_decimal_is_digits(n as nat);
        let text = decimal(n as nat);
        assert(is_digit(text[0]));
    }
}

/// The 32-bit signed integer that a text writes in decimal.
pub open spec fn i32_of(text: Seq<char>) -> Option<int> {
    integer_within(text, true, i32::MIN as int, i32::MAX as int)
}

/// The 64-bit unsigned integer that a text writes in decimal.
pub open spec fn u64_of(text: Seq<char>) -> Option<int> {
    integer_within(text, false, 0, u64::MAX as int)
}

/// The unsigned integer of the machine's word size that a text writes in
/// decimal.
pub open spec fn usize_of(text: Seq<char>) -> Option<int> {
    integer_within(text, false, 0, usize::MAX as int)
}

/// Reads a 32-bit signed integer written in decimal.
pub fn parse_i32(text: &Vec<char>) -> (value: Option<i32>)
    ensures
        value.is_some() == i32_of(text@).is_some(),
        value matches Some(v) ==> Some(v as int) == i32_of(text@),
{
    match read_integer(text, true, i32::MIN as i128, i32::MAX as i128) {
        Some(v) => Some(v as i32),
        None => None,
    }
}

/// Reads a 64-bit unsigned integer written in decimal.
pub fn parse_u64(text: &Vec<char>) -> (value: Option<u64>)
    ensures
        value.is_some() == u64_of(text@).is_some(),
        value matches Some(v) ==> Some(v as int) == u64_of(text@),
{
    match read_integer(text, false, 0, u64::MAX as i128) {
        Some(v) => Some(v as u64),
        None => None,
    }
}

/// Reads an unsigned integer of the machine's word size written in decimal.
pub fn parse_usize(text: &Vec<char>) -> (value: Option<usize>)
    ensures
        value.is_some() == usize_of(text@).is_some(),
        value matches Some(v) ==> Some(v as int) == usize_of(text@),
{
    match read_integer(text, false, 0, usize::MAX as i128) {
        Some(v) => Some(v as usize),
        None => None,
    }
}

} // verus!
