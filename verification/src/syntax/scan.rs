//! Scanning helpers that the lexers share. Offsets are bytes.
use vstd::prelude::*;
use vstd::utf8::{encode_utf8, is_char_boundary, valid_utf8};

verus! {

/// A byte of `[A-Za-z0-9]`.
pub open spec fn is_alnum(byte: u8) -> bool {
    is_letter(byte) || is_digit(byte)
}

/// A byte of `[A-Za-z]`.
pub open spec fn is_letter(byte: u8) -> bool {
    0x41 <= byte <= 0x5a || 0x61 <= byte <= 0x7a
}

/// A byte of `[0-9]`.
pub open spec fn is_digit(byte: u8) -> bool {
    0x30 <= byte <= 0x39
}

/// A byte of `[A-Za-z0-9_]`.
pub open spec fn is_word_byte(byte: u8) -> bool {
    is_alnum(byte) || byte == 0x5f
}

/// A byte of `[0-9_]`.
pub open spec fn is_digit_byte(byte: u8) -> bool {
    is_digit(byte) || byte == 0x5f
}

/// A space or a tab.
pub open spec fn is_blank(byte: u8) -> bool {
    byte == 0x20 || byte == 0x09
}

/// The byte at an offset is there and equals `byte`.
pub open spec fn byte_is(bytes: Seq<u8>, at: int, byte: u8) -> bool {
    0 <= at < bytes.len() && bytes[at] == byte
}

/// The end of the run of bytes with a property that starts at an offset.
pub open spec fn run_end(bytes: Seq<u8>, at: int, property: spec_fn(u8) -> bool) -> int
    decreases bytes.len() - at,
{
    if 0 <= at < bytes.len() && property(bytes[at]) {
        run_end(bytes, at + 1, property)
    } else {
        at
    }
}

/// How many bytes the character that starts with a byte takes.
pub open spec fn step(bytes: Seq<u8>, at: int) -> int {
    if 0 <= at < bytes.len() {
        if 0xc0 <= bytes[at] <= 0xdf {
            2
        } else if 0xe0 <= bytes[at] <= 0xef {
            3
        } else if 0xf0 <= bytes[at] <= 0xf7 {
            4
        } else {
            1
        }
    } else {
        1
    }
}

/// An offset begins a word rather than continuing one.
pub open spec fn begins_word(bytes: Seq<u8>, at: int) -> bool {
    !(0 < at <= bytes.len() && is_word_byte(bytes[at - 1]))
}

/// The end of the word that starts at an offset.
pub open spec fn word_stop(bytes: Seq<u8>, at: int) -> int {
    run_end(bytes, at, |byte: u8| is_word_byte(byte))
}

/// The first offset that holds neither a space nor a tab.
pub open spec fn after_blanks(bytes: Seq<u8>, at: int) -> int {
    run_end(bytes, at, |byte: u8| is_blank(byte))
}

/// The end of the digits that start at an offset.
pub open spec fn digits_stop(bytes: Seq<u8>, at: int) -> int {
    run_end(bytes, at, |byte: u8| is_digit_byte(byte))
}

/// How many bytes there are from an offset on.
pub open spec fn left(bytes: Seq<u8>, at: int) -> int {
    if at < bytes.len() {
        bytes.len() - at
    } else {
        0
    }
}

/// The offset after the quote that closes a quote body, when the line has it.
pub open spec fn quote_stop(bytes: Seq<u8>, at: int, quote: u8, escapes: bool) -> Option<int>
    decreases left(bytes, at),
{
    if at < 0 || at >= bytes.len() {
        None
    } else if escapes && bytes[at] == 0x5c {
        if at + 1 >= bytes.len() {
            None
        } else {
            quote_stop(bytes, at + 1 + step(bytes, at + 1), quote, escapes)
        }
    } else if bytes[at] == quote {
        Some(at + 1)
    } else {
        quote_stop(bytes, at + step(bytes, at), quote, escapes)
    }
}

/// The offset after a sign, when there is one.
pub open spec fn after_sign(bytes: Seq<u8>, at: int) -> int {
    if byte_is(bytes, at, 0x2d) || byte_is(bytes, at, 0x2b) {
        at + 1
    } else {
        at
    }
}

/// A letter that follows a zero and names a radix.
pub open spec fn is_radix(byte: u8) -> bool {
    byte == 0x78 || byte == 0x58 || byte == 0x62 || byte == 0x42 || byte == 0x6f || byte == 0x4f
}

/// The end of digit groups that `.`, `:` or `-` joins.
pub open spec fn groups_stop(bytes: Seq<u8>, at: int) -> int
    decreases bytes.len() - at,
{
    if (byte_is(bytes, at, 0x2e) || byte_is(bytes, at, 0x3a) || byte_is(bytes, at, 0x2d)) && at + 1 < bytes.len()
        && is_digit(bytes[at + 1]) {
        proof {
            lemma_run_end(bytes, at + 1, |byte: u8| is_digit_byte(byte));
        }
        groups_stop(bytes, digits_stop(bytes, at + 1))
    } else {
        at
    }
}

/// The end of an exponent, when one that has a digit starts at an offset.
pub open spec fn exponent_stop(bytes: Seq<u8>, at: int) -> int {
    let after = after_sign(bytes, at + 1);
    if (byte_is(bytes, at, 0x65) || byte_is(bytes, at, 0x45)) && after < bytes.len() && is_digit(bytes[after]) {
        digits_stop(bytes, after)
    } else {
        at
    }
}

/// Two digits stand at an offset.
pub open spec fn two_digits_at(bytes: Seq<u8>, at: int) -> bool {
    0 <= at && at + 1 < bytes.len() && is_digit(bytes[at]) && is_digit(bytes[at + 1])
}

/// A date stands at an offset, as in `1979-05-27`.
pub open spec fn date_at(bytes: Seq<u8>, at: int) -> bool {
    &&& two_digits_at(bytes, at)
    &&& two_digits_at(bytes, at + 2)
    &&& byte_is(bytes, at + 4, 0x2d)
    &&& two_digits_at(bytes, at + 5)
    &&& byte_is(bytes, at + 7, 0x2d)
    &&& two_digits_at(bytes, at + 8)
}

/// A time stands at an offset, as in `07:32`.
pub open spec fn time_at(bytes: Seq<u8>, at: int) -> bool {
    &&& two_digits_at(bytes, at)
    &&& byte_is(bytes, at + 2, 0x3a)
    &&& two_digits_at(bytes, at + 3)
}

/// A date and a time that a `T` joins stand at an offset.
pub open spec fn timestamp_at(bytes: Seq<u8>, at: int) -> bool {
    &&& date_at(bytes, at)
    &&& byte_is(bytes, at + 10, 0x54) || byte_is(bytes, at + 10, 0x74)
    &&& time_at(bytes, at + 11)
}

/// The end of the time zone behind a time: a `Z` or an offset ahead of it, that no
/// word goes on from. An offset behind it is a digit group like any other.
pub open spec fn zone_stop(bytes: Seq<u8>, at: int) -> int {
    if (byte_is(bytes, at, 0x5a) || byte_is(bytes, at, 0x7a)) && !(at + 1 < bytes.len() && is_word_byte(
        bytes[at + 1],
    )) {
        at + 1
    } else if byte_is(bytes, at, 0x2b) && time_at(bytes, at + 1) && !(at + 6 < bytes.len() && is_word_byte(
        bytes[at + 6],
    )) {
        at + 6
    } else {
        at
    }
}

/// The end of the number that starts at an offset: a radix literal, a timestamp,
/// or digits in joined groups with an exponent.
pub open spec fn number_stop(bytes: Seq<u8>, at: int) -> int {
    let body = after_sign(bytes, at);
    if byte_is(bytes, body, 0x30) && body + 1 < bytes.len() && is_radix(bytes[body + 1]) {
        word_stop(bytes, body + 2)
    } else if timestamp_at(bytes, body) {
        zone_stop(bytes, groups_stop(bytes, digits_stop(bytes, body + 11)))
    } else {
        exponent_stop(bytes, groups_stop(bytes, digits_stop(bytes, body)))
    }
}

pub proof fn lemma_run_end(bytes: Seq<u8>, at: int, property: spec_fn(u8) -> bool)
    requires
        0 <= at,
    ensures
        at <= run_end(bytes, at, property),
        at <= bytes.len() ==> run_end(bytes, at, property) <= bytes.len(),
        at < bytes.len() && property(bytes[at]) ==> at < run_end(bytes, at, property),
        forall|i: int| at <= i < run_end(bytes, at, property) ==> i < bytes.len() && property(#[trigger] bytes[i]),
        at <= bytes.len() && run_end(bytes, at, property) < bytes.len() ==> !property(
            bytes[run_end(bytes, at, property)],
        ),
    decreases bytes.len() - at,
{
    if at < bytes.len() && property(bytes[at]) {
        lemma_run_end(bytes, at + 1, property);
    }
}

pub proof fn lemma_quote_stop(bytes: Seq<u8>, at: int, quote: u8, escapes: bool)
    ensures
        match quote_stop(bytes, at, quote, escapes) {
            Some(end) => at < end <= bytes.len() && bytes[end - 1] == quote,
            None => true,
        },
    decreases left(bytes, at),
{
    if 0 <= at < bytes.len() {
        if escapes && bytes[at] == 0x5c {
            if at + 1 < bytes.len() {
                lemma_quote_stop(bytes, at + 1 + step(bytes, at + 1), quote, escapes);
            }
        } else if bytes[at] != quote {
            lemma_quote_stop(bytes, at + step(bytes, at), quote, escapes);
        }
    }
}

pub proof fn lemma_groups_stop(bytes: Seq<u8>, at: int)
    requires
        0 <= at,
    ensures
        at <= groups_stop(bytes, at),
        at <= bytes.len() ==> groups_stop(bytes, at) <= bytes.len(),
        at < groups_stop(bytes, at) < bytes.len() ==> !is_digit_byte(bytes[groups_stop(bytes, at)]),
        forall|i: int| at <= i < groups_stop(bytes, at) ==> i < bytes.len() && is_number_byte(#[trigger] bytes[i]),
    decreases bytes.len() - at,
{
    if (byte_is(bytes, at, 0x2e) || byte_is(bytes, at, 0x3a) || byte_is(bytes, at, 0x2d)) && at + 1 < bytes.len()
        && is_digit(bytes[at + 1]) {
        lemma_run_end(bytes, at + 1, |byte: u8| is_digit_byte(byte));
        let next = digits_stop(bytes, at + 1);
        assert forall|i: int| at <= i < next implies i < bytes.len() && is_number_byte(#[trigger] bytes[i]) by {}
        lemma_groups_stop(bytes, next);
    }
}

/// A byte that a number may hold.
pub open spec fn is_number_byte(byte: u8) -> bool {
    is_word_byte(byte) || is_joint(byte) || byte == 0x2b
}

/// A number moves forward when it starts with a digit, stays inside the line, takes
/// ASCII alone and leaves no digit behind.
pub proof fn lemma_number_stop(bytes: Seq<u8>, at: int)
    requires
        0 <= at <= bytes.len(),
    ensures
        at <= number_stop(bytes, at) <= bytes.len(),
        at < bytes.len() && is_digit(bytes[at]) ==> at < number_stop(bytes, at),
        forall|i: int| at <= i < number_stop(bytes, at) ==> is_number_byte(#[trigger] bytes[i]),
        number_stop(bytes, at) < bytes.len() ==> !is_digit(bytes[number_stop(bytes, at)]) && bytes[number_stop(
            bytes,
            at,
        )] != 0x5f,
{
    let body = after_sign(bytes, at);
    lemma_run_end(bytes, body, |byte: u8| is_digit_byte(byte));
    let digits = digits_stop(bytes, body);
    lemma_groups_stop(bytes, digits);
    let groups = groups_stop(bytes, digits);
    let after = after_sign(bytes, groups + 1);
    lemma_run_end(bytes, after, |byte: u8| is_digit_byte(byte));
    lemma_run_end(bytes, body + 2, |byte: u8| is_word_byte(byte));
    if timestamp_at(bytes, body) {
        lemma_run_end(bytes, body + 11, |byte: u8| is_digit_byte(byte));
        lemma_groups_stop(bytes, digits_stop(bytes, body + 11));
        let time = groups_stop(bytes, digits_stop(bytes, body + 11));
        assert forall|i: int| at <= i < zone_stop(bytes, time) implies is_number_byte(#[trigger] bytes[i]) by {
            if body <= i < body + 11 {
                assert(i == body || i == body + 1 || i == body + 2 || i == body + 3 || i == body + 4 || i == body + 5
                    || i == body + 6 || i == body + 7 || i == body + 8 || i == body + 9 || i == body + 10);
            } else if i >= time {
                assert(i == time || i == time + 1 || i == time + 2 || i == time + 3 || i == time + 4 || i == time
                    + 5);
            }
        }
    }
}

/// From an offset to the end of the line there are digits alone, in groups that
/// `.`, `:` or `-` joins.
pub open spec fn all_groups(bytes: Seq<u8>, from: int) -> bool {
    &&& 0 <= from < bytes.len()
    &&& is_digit(bytes[from])
    &&& forall|i: int| from <= i < bytes.len() && !is_digit(#[trigger] bytes[i]) ==> is_joint(bytes[i]) && i + 1
        < bytes.len() && is_digit(bytes[i + 1])
}

/// A byte that joins digit groups.
pub open spec fn is_joint(byte: u8) -> bool {
    byte == 0x2e || byte == 0x3a || byte == 0x2d
}

/// Digit groups are read to their end: a version, an IPv4 address, a date and a
/// time are one number each.
pub proof fn joined_digits_are_one_number(bytes: Seq<u8>)
    requires
        all_groups(bytes, 0),
    ensures
        number_stop(bytes, 0) == bytes.len(),
{
    lemma_all_groups(bytes, 0);
    if bytes.len() > 1 {
        assert(is_digit(bytes[1]) || is_joint(bytes[1]));
    }
    if timestamp_at(bytes, 0) {
        assert(!is_digit(bytes[10]) && !is_joint(bytes[10]));
    }
}

/// A date and a time that a `T` joins are one number, with or without a `Z` behind
/// them.
pub proof fn a_timestamp_is_one_number(bytes: Seq<u8>)
    requires
        timestamp_at(bytes, 0),
        all_groups(bytes, 11),
    ensures
        number_stop(bytes, 0) == bytes.len(),
        number_stop(bytes.push(0x5a), 0) == bytes.len() + 1,
{
    lemma_all_groups(bytes, 11);
    let zoned = bytes.push(0x5a);
    assert forall|i: int| 0 <= i < bytes.len() implies #[trigger] zoned[i] == bytes[i] by {}
    assert(is_digit(bytes[1]));
    lemma_groups_before(bytes, 11, 0x5a);
}

proof fn lemma_all_groups(bytes: Seq<u8>, from: int)
    requires
        all_groups(bytes, from),
    ensures
        groups_stop(bytes, digits_stop(bytes, from)) == bytes.len(),
    decreases bytes.len() - from,
{
    lemma_run_end(bytes, from, |byte: u8| is_digit_byte(byte));
    let next = digits_stop(bytes, from);
    if next < bytes.len() {
        assert(!is_digit(bytes[next]));
        lemma_all_groups(bytes, next + 1);
    }
}

/// A letter behind digit groups does not change where they end.
proof fn lemma_groups_before(bytes: Seq<u8>, from: int, letter: u8)
    requires
        all_groups(bytes, from),
        is_letter(letter),
    ensures
        groups_stop(bytes.push(letter), digits_stop(bytes.push(letter), from)) == bytes.len(),
    decreases bytes.len() - from,
{
    let longer = bytes.push(letter);
    assert forall|i: int| 0 <= i < bytes.len() implies #[trigger] longer[i] == bytes[i] by {}
    lemma_run_end(longer, from, |byte: u8| is_digit_byte(byte));
    let next = digits_stop(longer, from);
    assert(longer[bytes.len() as int] == letter);
    if next < bytes.len() {
        assert(longer[next] == bytes[next] && !is_digit(bytes[next]));
        assert(longer[next + 1] == bytes[next + 1]);
        lemma_groups_before(bytes, next + 1, letter);
    }
}

/// From a character boundary a step leads to the next one.
pub proof fn lemma_step(bytes: Seq<u8>, at: int)
    requires
        valid_utf8(bytes),
        0 <= at < bytes.len(),
        is_char_boundary(bytes, at),
    ensures
        at + step(bytes, at) <= bytes.len(),
        is_char_boundary(bytes, at + step(bytes, at)),
    decreases bytes.len(),
{
    let width = vstd::utf8::length_of_first_scalar(bytes);
    let rest = vstd::utf8::pop_first_scalar(bytes);
    reveal_with_fuel(is_char_boundary, 2);
    if at > 0 {
        assert(at >= width);
        lemma_step(rest, at - width);
        assert(rest[at - width] == bytes[at]);
    }
}

/// After a stretch of ASCII that starts at a character boundary comes another.
pub proof fn lemma_ascii_run(bytes: Seq<u8>, from: int, to: int)
    requires
        valid_utf8(bytes),
        0 <= from <= to <= bytes.len(),
        is_char_boundary(bytes, from),
        forall|i: int| from <= i < to ==> #[trigger] bytes[i] < 0x80,
    ensures
        is_char_boundary(bytes, to),
    decreases to - from,
{
    if from < to {
        assert(bytes[from] < 0x80);
        lemma_step(bytes, from);
        lemma_ascii_run(bytes, from + 1, to);
    }
}

/// A number is read whole: it ends at a character boundary inside the line, holds
/// nothing but letters, digits, `_`, `.`, `:`, `-` and `+`, and what follows is
/// neither a digit nor a `_`.
pub proof fn a_number_is_read_whole(bytes: Seq<u8>, at: int)
    requires
        valid_utf8(bytes),
        0 <= at <= bytes.len(),
        is_char_boundary(bytes, at),
    ensures
        at <= number_stop(bytes, at) <= bytes.len(),
        is_char_boundary(bytes, number_stop(bytes, at)),
        forall|i: int| at <= i < number_stop(bytes, at) ==> is_number_byte(#[trigger] bytes[i]),
        number_stop(bytes, at) < bytes.len() ==> !is_digit_byte(bytes[number_stop(bytes, at)]),
{
    lemma_number_stop(bytes, at);
    lemma_ascii_run(bytes, at, number_stop(bytes, at));
}

/// A closing quote that is ASCII is followed by a character boundary.
pub proof fn lemma_quote_boundary(bytes: Seq<u8>, at: int, quote: u8, escapes: bool)
    requires
        valid_utf8(bytes),
        0 <= at <= bytes.len(),
        is_char_boundary(bytes, at),
        quote < 0x80,
    ensures
        match quote_stop(bytes, at, quote, escapes) {
            Some(end) => is_char_boundary(bytes, end),
            None => true,
        },
    decreases bytes.len() - at,
{
    if at < bytes.len() {
        lemma_step(bytes, at);
        if escapes && bytes[at] == 0x5c {
            if at + 1 < bytes.len() {
                lemma_step(bytes, at + 1);
                lemma_quote_boundary(bytes, at + 1 + step(bytes, at + 1), quote, escapes);
            }
        } else if bytes[at] != quote {
            lemma_quote_boundary(bytes, at + step(bytes, at), quote, escapes);
        }
    }
}

pub fn word_byte(byte: u8) -> (is: bool)
    ensures
        is == is_word_byte(byte),
{
    (0x41 <= byte && byte <= 0x5a) || (0x61 <= byte && byte <= 0x7a) || (0x30 <= byte && byte <= 0x39) || byte
        == 0x5f
}

pub fn digit(byte: u8) -> (is: bool)
    ensures
        is == is_digit(byte),
{
    0x30 <= byte && byte <= 0x39
}

/// Whether the byte at an offset is there and equals `byte`.
pub fn has_byte(bytes: &[u8], at: usize, byte: u8) -> (has: bool)
    ensures
        has == byte_is(bytes@, at as int, byte),
{
    at < bytes.len() && bytes[at] == byte
}

/// How many bytes the character at `at` takes.
///
/// Read off the lead byte, so that a caller that is off a boundary advances by
/// one byte.
pub fn char_step(line: &str, at: usize) -> (step: usize)
    ensures
        step == self::step(encode_utf8(line@), at as int),
        1 <= step <= 4,
{
    let bytes = line.as_bytes();
    if at >= bytes.len() {
        return 1;
    }
    let byte: u8 = bytes[at];
    if 0xc0 <= byte && byte <= 0xdf {
        2
    } else if 0xe0 <= byte && byte <= 0xef {
        3
    } else if 0xf0 <= byte && byte <= 0xf7 {
        4
    } else {
        1
    }
}

/// Whether `at` begins a word rather than continuing one.
pub fn word_boundary(bytes: &[u8], at: usize) -> (begins: bool)
    ensures
        begins == begins_word(bytes@, at as int),
{
    if at == 0 || at > bytes.len() {
        true
    } else {
        !word_byte(bytes[at - 1])
    }
}

/// The end of the `[A-Za-z0-9_]` word starting at `at`.
pub fn word_end(bytes: &[u8], at: usize) -> (end: usize)
    ensures
        end == word_stop(bytes@, at as int),
{
    let mut end: usize = at;
    while end < bytes.len() && word_byte(bytes[end])
        invariant
            at <= end,
            word_stop(bytes@, at as int) == word_stop(bytes@, end as int),
        decreases bytes@.len() - end,
    {
        end += 1;
    }
    end
}

/// The first byte at or after `at` that is not a space or a tab.
pub fn skip_spaces(bytes: &[u8], at: usize) -> (end: usize)
    ensures
        end == after_blanks(bytes@, at as int),
{
    let mut end: usize = at;
    while end < bytes.len() && (bytes[end] == 0x20 || bytes[end] == 0x09)
        invariant
            at <= end,
            after_blanks(bytes@, at as int) == after_blanks(bytes@, end as int),
        decreases bytes@.len() - end,
    {
        end += 1;
    }
    end
}

/// How many bytes of leading space and tab `line` has.
pub fn indent_of(line: &str) -> (indent: usize)
    ensures
        indent == after_blanks(encode_utf8(line@), 0),
{
    skip_spaces(line.as_bytes(), 0)
}

/// The end of a quote body, which is the byte after the closing `quote`,
/// starting at `at`, which is the first byte inside the quote.
///
/// `None` when the line ends before the quote closes.
pub fn quote_body(line: &str, at: usize, quote: u8, escapes: bool) -> (end: Option<usize>)
    ensures
        match end {
            Some(end) => quote_stop(encode_utf8(line@), at as int, quote, escapes) == Some(end as int),
            None => quote_stop(encode_utf8(line@), at as int, quote, escapes) is None,
        },
{
    let bytes = line.as_bytes();
    let len: usize = bytes.len();
    let ghost all = encode_utf8(line@);
    let mut next: usize = at;
    while next < len
        invariant
            bytes@ == all,
            all == encode_utf8(line@),
            len == all.len(),
            quote_stop(all, next as int, quote, escapes) == quote_stop(all, at as int, quote, escapes),
        decreases len - next,
    {
        proof {
            reveal_with_fuel(quote_stop, 2);
        }
        let byte: u8 = bytes[next];
        if escapes && byte == 0x5c {
            // A trailing backslash escapes the line break itself, so the string
            // is still open whatever comes next.
            if len - next <= 1 {
                return None;
            }
            let width: usize = char_step(line, next + 1);
            next = if width >= len - next - 1 { len } else { next + 1 + width };
        } else if byte == quote {
            return Some(next + 1);
        } else {
            let width: usize = char_step(line, next);
            next = if width >= len - next { len } else { next + width };
        }
    }
    None
}

/// The end of a quoted run whose opening quote is at `at`.
pub fn quoted(line: &str, at: usize, escapes: bool) -> (end: Option<usize>)
    ensures
        match end {
            Some(end) => at < encode_utf8(line@).len() && quote_stop(
                encode_utf8(line@),
                at + 1,
                encode_utf8(line@)[at as int],
                escapes,
            ) == Some(end as int),
            None => at >= encode_utf8(line@).len() || quote_stop(
                encode_utf8(line@),
                at + 1,
                encode_utf8(line@)[at as int],
                escapes,
            ) is None,
        },
{
    let bytes = line.as_bytes();
    if at >= bytes.len() {
        return None;
    }
    quote_body(line, at + 1, bytes[at], escapes)
}

/// The end of the `[0-9_]` run starting at `at`.
fn digits(bytes: &[u8], at: usize) -> (end: usize)
    ensures
        end == digits_stop(bytes@, at as int),
{
    let mut end: usize = at;
    while end < bytes.len() && (digit(bytes[end]) || bytes[end] == 0x5f)
        invariant
            at <= end,
            digits_stop(bytes@, at as int) == digits_stop(bytes@, end as int),
        decreases bytes@.len() - end,
    {
        end += 1;
    }
    end
}

/// The end of digit groups that `.`, `:` or `-` joins, starting at `at`.
fn joined(bytes: &[u8], at: usize) -> (end: usize)
    ensures
        end == groups_stop(bytes@, at as int),
{
    let len: usize = bytes.len();
    let mut end: usize = at;
    while (has_byte(bytes, end, 0x2e) || has_byte(bytes, end, 0x3a) || has_byte(bytes, end, 0x2d)) && end + 1
        < len && digit(bytes[end + 1])
        invariant
            len == bytes@.len(),
            groups_stop(bytes@, at as int) == groups_stop(bytes@, end as int),
        decreases bytes@.len() - end,
    {
        proof {
            lemma_run_end(bytes@, end + 1, |byte: u8| is_digit_byte(byte));
        }
        end = digits(bytes, end + 1);
    }
    end
}

/// Whether two digits stand at `at`.
fn has_two_digits(bytes: &[u8], at: usize) -> (has: bool)
    ensures
        has == two_digits_at(bytes@, at as int),
{
    at < bytes.len() && digit(bytes[at]) && at + 1 < bytes.len() && digit(bytes[at + 1])
}

/// Whether a time stands at `at`.
fn has_time(bytes: &[u8], at: usize) -> (has: bool)
    ensures
        has == time_at(bytes@, at as int),
{
    at < bytes.len() && has_two_digits(bytes, at) && has_byte(bytes, at + 2, 0x3a) && has_two_digits(bytes, at + 3)
}

/// Whether a date and a time that a `T` joins stand at `at`.
fn has_timestamp(bytes: &[u8], at: usize) -> (has: bool)
    ensures
        has == timestamp_at(bytes@, at as int),
{
    at < bytes.len() && has_two_digits(bytes, at) && has_two_digits(bytes, at + 2) && has_byte(bytes, at + 4, 0x2d) && has_two_digits(
        bytes,
        at + 5,
    ) && has_byte(bytes, at + 7, 0x2d) && has_two_digits(bytes, at + 8) && (has_byte(bytes, at + 10, 0x54)
        || has_byte(bytes, at + 10, 0x74)) && has_time(bytes, at + 11)
}

/// The end of the time zone at `at`, if there is one.
fn zone(bytes: &[u8], at: usize) -> (end: usize)
    ensures
        end == zone_stop(bytes@, at as int),
{
    let len: usize = bytes.len();
    if (has_byte(bytes, at, 0x5a) || has_byte(bytes, at, 0x7a)) && !(at + 1 < len && word_byte(
        bytes[at + 1],
    )) {
        at + 1
    } else if has_byte(bytes, at, 0x2b) && has_time(bytes, at + 1) && !(at + 6 < len && word_byte(bytes[at + 6])) {
        at + 6
    } else {
        at
    }
}

/// The end of the number starting at `at`.
///
/// Greedy across `.`, `:` and `-` when a digit follows, and across the `T` between
/// a date and a time, so that a version, an IPv4 address and a TOML timestamp each
/// come out as one number rather than as three with punctuation between them.
pub fn number(line: &str, at: usize) -> (end: usize)
    ensures
        end == number_stop(encode_utf8(line@), at as int),
{
    let bytes = line.as_bytes();
    let len: usize = bytes.len();
    let ghost all = bytes@;
    let mut end: usize = at;
    if has_byte(bytes, end, 0x2d) || has_byte(bytes, end, 0x2b) {
        end += 1;
    }
    let ghost body = end as int;
    if has_byte(bytes, end, 0x30) && end + 1 < len && (bytes[end + 1] == 0x78 || bytes[end + 1] == 0x58
        || bytes[end + 1] == 0x62 || bytes[end + 1] == 0x42 || bytes[end + 1] == 0x6f || bytes[end + 1] == 0x4f) {
        return word_end(bytes, end + 2);
    }
    if has_timestamp(bytes, end) {
        proof {
            lemma_run_end(all, body + 11, |byte: u8| is_digit_byte(byte));
        }
        let time: usize = joined(bytes, digits(bytes, end + 11));
        return zone(bytes, time);
    }
    end = joined(bytes, digits(bytes, end));
    if has_byte(bytes, end, 0x65) || has_byte(bytes, end, 0x45) {
        let mut after: usize = end + 1;
        if has_byte(bytes, after, 0x2b) || has_byte(bytes, after, 0x2d) {
            after += 1;
        }
        if after < len && digit(bytes[after]) {
            end = digits(bytes, after);
        }
    }
    end
}

/// A zero, the letter of a radix in either case and a word behind it are one number.
pub proof fn a_radix_literal_is_one_number(bytes: Seq<u8>)
    requires
        bytes.len() >= 2,
        bytes[0] == 0x30,
        bytes[1] == 0x78 || bytes[1] == 0x58 || bytes[1] == 0x62 || bytes[1] == 0x42 || bytes[1] == 0x6f || bytes[1]
            == 0x4f,
        forall|i: int| 2 <= i < bytes.len() ==> is_word_byte(#[trigger] bytes[i]),
    ensures
        number_stop(bytes, 0) == bytes.len(),
{
    lemma_run_end(bytes, 2, |byte: u8| is_word_byte(byte));
}

/// Digits, an `e` in either case and digits behind it are one number, with a sign before
/// the exponent or without.
pub proof fn an_exponent_belongs_to_its_number(bytes: Seq<u8>, mark: int, from: int)
    requires
        0 < mark,
        from == mark + 1 || (from == mark + 2 && (bytes[mark + 1] == 0x2b || bytes[mark + 1] == 0x2d)),
        from < bytes.len(),
        forall|i: int| 0 <= i < mark ==> is_digit(#[trigger] bytes[i]),
        bytes[mark] == 0x65 || bytes[mark] == 0x45,
        forall|i: int| from <= i < bytes.len() ==> is_digit(#[trigger] bytes[i]),
    ensures
        number_stop(bytes, 0) == bytes.len(),
{
    lemma_run_end(bytes, 0, |byte: u8| is_digit_byte(byte));
    lemma_run_end(bytes, from, |byte: u8| is_digit_byte(byte));
    assert(is_digit(bytes[0]));
    let stop = digits_stop(bytes, 0);
    if stop < mark {
        assert(is_digit(bytes[stop]));
    }
    if stop > mark {
        assert(is_digit_byte(bytes[mark]));
    }
    assert(groups_stop(bytes, mark) == mark);
    assert(is_digit(bytes[from]));
    assert(after_sign(bytes, mark + 1) == from);
    let end = digits_stop(bytes, from);
    if end < bytes.len() {
        assert(is_digit(bytes[end]));
    }
    if mark > 1 {
        assert(is_digit(bytes[1]));
    }
    if timestamp_at(bytes, 0) {
        if mark > 4 {
            assert(is_digit(bytes[4]));
        }
    }
}

} // verus!
