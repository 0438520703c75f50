//! Strings: the parts of std that the library leans on, and small helpers.
use vstd::prelude::*;

verus! {

/// `String::push` of std: the character goes to the end.
pub assume_specification[ std::string::String::push ](s: &mut std::string::String, c: char)
    ensures
        final(s)@ == old(s)@.push(c),
;

/// `str` equality of std: two strings are equal when their characters are.
pub assume_specification[ <str as PartialEq>::eq ](a: &str, b: &str) -> (equal: bool)
    ensures
        equal == (a@ == b@),
;

/// `char::is_whitespace` of std: the characters that Unicode calls white space.
pub assume_specification[ char::is_whitespace ](c: char) -> (white: bool)
    ensures
        white == is_white(c),
;

/// The characters with the Unicode property `White_Space`.
pub open spec fn is_white(c: char) -> bool {
    ||| '\u{9}' <= c <= '\u{d}'
    ||| c == ' '
    ||| c == '\u{85}'
    ||| c == '\u{a0}'
    ||| c == '\u{1680}'
    ||| '\u{2000}' <= c <= '\u{200a}'
    ||| c == '\u{2028}'
    ||| c == '\u{2029}'
    ||| c == '\u{202f}'
    ||| c == '\u{205f}'
    ||| c == '\u{3000}'
}

/// The first offset from `at` on that holds white space, or that holds none.
pub open spec fn white_end(text: Seq<char>, at: int, white: bool) -> int
    decreases text.len() - at,
{
    if 0 <= at < text.len() && is_white(text[at]) == white {
        white_end(text, at + 1, white)
    } else {
        at
    }
}

/// A text without the white space at its start.
pub open spec fn trimmed_start(text: Seq<char>) -> Seq<char> {
    text.skip(white_end(text, 0, true))
}

/// A text without the white space at its end.
pub open spec fn trimmed_end(text: Seq<char>) -> Seq<char>
    decreases text.len(),
{
    if text.len() > 0 && is_white(text.last()) {
        trimmed_end(text.drop_last())
    } else {
        text
    }
}

/// A text without the white space at both ends.
pub open spec fn trimmed(text: Seq<char>) -> Seq<char> {
    trimmed_end(trimmed_start(text))
}

/// The characters of an optional text.
pub open spec fn option_text(text: Option<String>) -> Option<Seq<char>> {
    match text {
        Some(text) => Some(text@),
        None => None,
    }
}

/// Whether two texts hold the same characters.
pub fn same(a: &str, b: &str) -> (equal: bool)
    ensures
        equal == (a@ == b@),
{
    *a == *b
}

/// The characters of a text.
pub fn to_chars(s: &str) -> (chars: Vec<char>)
    ensures
        chars@ == s@,
{
    let mut chars: Vec<char> = Vec::new();
    for c in iter: s.chars()
        invariant
            chars@ == iter.seq().take(iter.index()),
            iter.seq() == s@,
    {
        chars.push(c);
        proof {
            assert(chars@ =~= iter.seq().take(iter.index() + 1));
        }
    }
    proof {
        assert(s@.take(s@.len() as int) =~= s@);
    }
    chars
}

/// The text of a stretch of characters.
pub fn from_chars(chars: &Vec<char>, from: usize, to: usize) -> (s: String)
    requires
        from <= to <= chars@.len(),
    ensures
        s@ == chars@.subrange(from as int, to as int),
{
    let mut s = String::new();
    let mut i: usize = from;
    while i < to
        invariant
            from <= i <= to <= chars@.len(),
            s@ == chars@.subrange(from as int, i as int),
        decreases to - i,
    {
        s.push(chars[i]);
        proof {
            assert(s@ =~= chars@.subrange(from as int, i + 1));
        }
        i += 1;
    }
    s
}

/// Whether characters begin with a text.
pub fn starts_with(chars: &Vec<char>, prefix: &str) -> (starts: bool)
    ensures
        starts == prefix@.is_prefix_of(chars@),
{
    let head = to_chars(prefix);
    if head.len() > chars.len() {
        return false;
    }
    let mut i: usize = 0;
    while i < head.len()
        invariant
            head@ == prefix@,
            i <= head@.len() <= chars@.len(),
            forall|k: int| 0 <= k < i ==> head@[k] == chars@[k],
        decreases head@.len() - i,
    {
        if head[i] != chars[i] {
            assert(chars@.subrange(0, head@.len() as int)[i as int] == chars@[i as int]);
            return false;
        }
        i += 1;
    }
    proof {
        assert(head@ =~= chars@.subrange(0, head@.len() as int));
    }
    true
}

/// Whether characters end with a text.
pub fn ends_with(chars: &Vec<char>, suffix: &str) -> (ends: bool)
    ensures
        ends == suffix@.is_suffix_of(chars@),
{
    let tail = to_chars(suffix);
    if tail.len() > chars.len() {
        return false;
    }
    let from: usize = chars.len() - tail.len();
    let mut i: usize = 0;
    while i < tail.len()
        invariant
            tail@ == suffix@,
            i <= tail.len() <= chars.len(),
            tail.len() == tail@.len(),
            from == chars.len() - tail.len(),
            forall|k: int| 0 <= k < i ==> tail@[k] == chars@[from + k],
        decreases tail@.len() - i,
    {
        if tail[i] != chars[from + i] {
            assert(chars@.subrange(from as int, chars@.len() as int)[i as int] == chars@[from + i]);
            return false;
        }
        i += 1;
    }
    proof {
        assert(tail@ =~= chars@.subrange(from as int, chars@.len() as int));
    }
    true
}

/// An ASCII capital becomes its small letter; anything else stays.
pub open spec fn lowered(c: char) -> char {
    if 'A' <= c <= 'Z' {
        (c as u32 + 32) as char
    } else {
        c
    }
}

/// A text with every ASCII capital made small.
pub open spec fn lowered_text(s: Seq<char>) -> Seq<char> {
    Seq::new(s.len(), |i: int| lowered(s[i]))
}

/// Make an ASCII capital small.
pub fn lower(c: char) -> (small: char)
    ensures
        small == lowered(c),
{
    if 'A' <= c && c <= 'Z' {
        ((c as u8) + 32) as char
    } else {
        c
    }
}

/// The text without the white space at both ends.
pub fn trim(s: &str) -> (inner: String)
    ensures
        inner@ == trimmed(s@),
{
    let chars = to_chars(s);
    let mut start: usize = 0;
    while start < chars.len() && chars[start].is_whitespace()
        invariant
            start <= chars@.len(),
            white_end(chars@, 0, true) == white_end(chars@, start as int, true),
        decreases chars@.len() - start,
    {
        start += 1;
    }
    let ghost rest = chars@.skip(start as int);
    let mut end: usize = chars.len();
    proof {
        assert(chars@.subrange(start as int, end as int) =~= rest);
    }
    while end > start && chars[end - 1].is_whitespace()
        invariant
            start <= end <= chars@.len(),
            trimmed_end(chars@.subrange(start as int, end as int)) == trimmed_end(rest),
        decreases end,
    {
        proof {
            let part = chars@.subrange(start as int, end as int);
            assert(part.drop_last() =~= chars@.subrange(start as int, end - 1));
            assert(part.last() == chars@[end - 1]);
        }
        end -= 1;
    }
    proof {
        if end > start {
            assert(chars@.subrange(start as int, end as int).last() == chars@[end - 1]);
        }
    }
    from_chars(&chars, start, end)
}

/// A copy of a text.
pub fn copy(s: &str) -> (text: String)
    ensures
        text@ == s@,
{
    s.to_owned()
}

/// One text after another.
pub fn join2(a: &str, b: &str) -> (text: String)
    ensures
        text@ == a@ + b@,
{
    let mut text = a.to_owned();
    text.append(b);
    text
}

/// Three texts, one after another.
pub fn join3(a: &str, b: &str, c: &str) -> (text: String)
    ensures
        text@ == a@ + b@ + c@,
{
    let mut text = join2(a, b);
    text.append(c);
    text
}

/// The character of a decimal digit.
pub open spec fn digit_char(digit: int) -> char {
    (0x30 + digit) as char
}

/// A number in decimal digits.
pub open spec fn decimal_text(n: nat) -> Seq<char>
    decreases n,
{
    if n < 10 {
        seq![digit_char(n as int)]
    } else {
        decimal_text(n / 10).push(digit_char((n % 10) as int))
    }
}

/// Write a number in decimal digits.
pub fn decimal(n: u64) -> (text: String)
    ensures
        text@ == decimal_text(n as nat),
    decreases n,
{
    if n < 10 {
        let mut text = String::new();
        text.push((0x30 + n as u8) as char);
        assert(text@ =~= decimal_text(n as nat));
        text
    } else {
        let mut text = decimal(n / 10);
        text.push((0x30 + (n % 10) as u8) as char);
        text
    }
}

/// Every character is a decimal digit.
pub open spec fn all_digits(text: Seq<char>) -> bool {
    forall|i: int| 0 <= i < text.len() ==> '0' <= #[trigger] text[i] <= '9'
}

/// The number that decimal digits stand for.
pub open spec fn digits_value(text: Seq<char>) -> nat
    decreases text.len(),
{
    if text.len() == 0 {
        0
    } else {
        (digits_value(text.drop_last()) * 10 + (text.last() as int - 0x30)) as nat
    }
}

/// The digits of a number: the text without a plus sign in front.
pub open spec fn unsigned_digits(text: Seq<char>) -> Seq<char> {
    if text.len() > 0 && text[0] == '+' {
        text.skip(1)
    } else {
        text
    }
}

/// The number that a text stands for: digits, with or without a plus sign, that
/// are no larger than `max`.
pub open spec fn parsed(text: Seq<char>, max: nat) -> Option<nat> {
    let digits = unsigned_digits(text);
    if digits.len() > 0 && all_digits(digits) && digits_value(digits) <= max {
        Some(digits_value(digits))
    } else {
        None
    }
}

/// The digits of a number stand for the number, and nothing around them is white
/// space, so what is written is read back.
pub proof fn decimal_round_trips(n: nat, max: nat)
    requires
        n <= max,
    ensures
        parsed(trimmed(decimal_text(n)), max) == Some(n),
        trimmed(decimal_text(n)) == decimal_text(n),
{
    lemma_decimal(n);
    let text = decimal_text(n);
    assert('0' <= text[0] <= '9');
    assert(text.skip(0) =~= text);
    assert('0' <= text[text.len() - 1] <= '9');
    assert(trimmed_start(text) == text);
}

pub proof fn lemma_decimal(n: nat)
    ensures
        decimal_text(n).len() > 0,
        all_digits(decimal_text(n)),
        digits_value(decimal_text(n)) == n,
    decreases n,
{
    if n < 10 {
        assert(decimal_text(n).drop_last() =~= Seq::empty());
        reveal_with_fuel(digits_value, 2);
    } else {
        lemma_decimal(n / 10);
        let front = decimal_text(n / 10);
        assert(decimal_text(n).drop_last() =~= front);
        assert forall|i: int| 0 <= i < decimal_text(n).len() implies '0' <= #[trigger] decimal_text(n)[i] <= '9' by {
            if i < front.len() {
                assert(decimal_text(n)[i] == front[i]);
            }
        }
    }
}

/// Read a number that is no larger than `max`.
pub fn parse(text: &str, max: u64) -> (number: Option<u64>)
    ensures
        match number {
            Some(n) => parsed(text@, max as nat) == Some(n as nat),
            None => parsed(text@, max as nat) is None,
        },
{
    let chars = to_chars(text);
    let start: usize = if chars.len() > 0 && chars[0] == '+' { 1 } else { 0 };
    let ghost digits = chars@.skip(start as int);
    proof {
        assert(digits =~= unsigned_digits(text@));
    }
    if start == chars.len() {
        return None;
    }
    let mut value: u64 = 0;
    let mut fits = true;
    let mut i: usize = start;
    while i < chars.len()
        invariant
            start <= i <= chars@.len(),
            digits == chars@.skip(start as int),
            digits == unsigned_digits(text@),
            all_digits(digits.take(i - start)),
            fits ==> value == digits_value(digits.take(i - start)) && value <= max,
            !fits ==> digits_value(digits.take(i - start)) > max,
        decreases chars@.len() - i,
    {
        let c: char = chars[i];
        if !('0' <= c && c <= '9') {
            assert(digits[i - start] == c);
            return None;
        }
        proof {
            let more = digits.take(i + 1 - start);
            assert(more.drop_last() =~= digits.take(i - start));
            assert(more.last() == c);
            assert forall|k: int| 0 <= k < more.len() implies '0' <= #[trigger] more[k] <= '9' by {
                if k < i - start {
                    assert(digits.take(i - start)[k] == more[k]);
                }
            }
        }
        let digit: u64 = (c as u8 - 0x30) as u64;
        if fits {
            if value > max / 10 || digit > max - value * 10 {
                fits = false;
            } else {
                value = value * 10 + digit;
            }
        }
        i += 1;
    }
    proof {
        assert(digits.take(chars@.len() - start) =~= digits);
    }
    if fits {
        Some(value)
    } else {
        None
    }
}

/// Trimming takes white space from both ends and nothing else: what is left lies inside
/// the text, begins and ends without white space, and had nothing but white space
/// around it.
pub proof fn trimming_takes_white_space_alone(text: Seq<char>)
    ensures
        exists|from: int, to: int| #[trigger] is_inside(text, from, to) && trimmed(text) == text.subrange(from, to),
        trimmed(text).len() > 0 ==> !is_white(trimmed(text)[0]) && !is_white(trimmed(text).last()),
        trimmed(text).len() == 0 <==> forall|i: int| 0 <= i < text.len() ==> is_white(#[trigger] text[i]),
{
    let from = white_end(text, 0, true);
    lemma_white_end(text, 0);
    let rest = text.skip(from);
    lemma_trimmed_end(rest);
    let to = from + trimmed_end(rest).len();
    assert forall|i: int| to <= i < text.len() implies is_white(#[trigger] text[i]) by {
        assert(rest[i - from] == text[i]);
    }
    assert(is_inside(text, from, to));
    assert(trimmed(text) =~= text.subrange(from, to));
    if trimmed(text).len() > 0 {
        assert(trimmed(text)[0] == text[from]);
    } else {
        assert forall|i: int| 0 <= i < text.len() implies is_white(#[trigger] text[i]) by {}
    }
    if forall|i: int| 0 <= i < text.len() ==> is_white(#[trigger] text[i]) {
        if trimmed(text).len() > 0 {
            assert(is_white(text[from]));
        }
    }
}

/// A stretch of a text has nothing but white space around it.
pub open spec fn is_inside(text: Seq<char>, from: int, to: int) -> bool {
    &&& 0 <= from <= to <= text.len()
    &&& forall|i: int| 0 <= i < from ==> is_white(#[trigger] text[i])
    &&& forall|i: int| to <= i < text.len() ==> is_white(#[trigger] text[i])
}

proof fn lemma_white_end(text: Seq<char>, at: int)
    requires
        0 <= at <= text.len(),
    ensures
        at <= white_end(text, at, true) <= text.len(),
        forall|i: int| at <= i < white_end(text, at, true) ==> is_white(#[trigger] text[i]),
        white_end(text, at, true) < text.len() ==> !is_white(text[white_end(text, at, true)]),
    decreases text.len() - at,
{
    if at < text.len() && is_white(text[at]) {
        lemma_white_end(text, at + 1);
    }
}

proof fn lemma_trimmed_end(text: Seq<char>)
    ensures
        trimmed_end(text).len() <= text.len(),
        trimmed_end(text) == text.take(trimmed_end(text).len() as int),
        forall|i: int| trimmed_end(text).len() <= i < text.len() ==> is_white(#[trigger] text[i]),
        trimmed_end(text).len() > 0 ==> !is_white(trimmed_end(text).last()),
    decreases text.len(),
{
    if text.len() > 0 && is_white(text.last()) {
        let rest = text.drop_last();
        lemma_trimmed_end(rest);
        assert forall|i: int| trimmed_end(text).len() <= i < text.len() implies is_white(#[trigger] text[i]) by {
            if i < rest.len() {
                assert(rest[i] == text[i]);
            }
        }
        assert(trimmed_end(text) =~= text.take(trimmed_end(text).len() as int));
    } else {
        assert(text =~= text.take(text.len() as int));
    }
}

/// Digits are read from left to right, each ten times the next.
pub proof fn digits_are_decimal(text: Seq<char>, digit: int)
    requires
        0 <= digit <= 9,
    ensures
        digits_value(Seq::empty()) == 0,
        digits_value(text.push((0x30 + digit) as char)) == digits_value(text) * 10 + digit,
{
    let longer = text.push((0x30 + digit) as char);
    assert(longer.drop_last() =~= text);
    assert(longer.last() == (0x30 + digit) as char);
}

/// A number is written with its tens before its last digit, and small ones as one digit.
pub proof fn numbers_are_written_in_tens(n: nat, digit: nat)
    requires
        digit <= 9,
    ensures
        decimal_text(digit) == seq![(0x30 + digit) as char],
        n > 0 ==> decimal_text(n * 10 + digit) == decimal_text(n).push((0x30 + digit) as char),
{
    if n > 0 {
        assert((n * 10 + digit) / 10 == n && (n * 10 + digit) % 10 == digit);
    }
}

/// What is no row of digits, but for one plus sign in front, is no number; what is one
/// is its value, up to the limit.
pub proof fn only_digits_are_numbers(text: Seq<char>, max: nat)
    ensures
        parsed(text, max) matches Some(n) ==> n <= max,
        text.len() == 0 ==> parsed(text, max) is None,
        text.len() > 0 && all_digits(text) && digits_value(text) <= max ==> parsed(text, max) == Some(
            digits_value(text),
        ),
        text.len() > 0 && all_digits(text) && digits_value(text) > max ==> parsed(text, max) is None,
        text.len() > 0 && all_digits(text) ==> parsed(seq!['+'] + text, max) == parsed(text, max),
        (exists|i: int| 0 < i < text.len() && !('0' <= #[trigger] text[i] <= '9')) ==> parsed(text, max) is None,
{
    if text.len() > 0 && all_digits(text) {
        assert('0' <= text[0] <= '9');
        assert((seq!['+'] + text).skip(1) =~= text);
    }
    if exists|i: int| 0 < i < text.len() && !('0' <= #[trigger] text[i] <= '9') {
        let i = choose|i: int| 0 < i < text.len() && !('0' <= #[trigger] text[i] <= '9');
        if text[0] == '+' {
            assert(text.skip(1)[i - 1] == text[i]);
        }
    }
}

/// Only the twenty-six ASCII capitals are made small.
pub proof fn capitals_are_made_small(s: Seq<char>, i: int)
    requires
        0 <= i < s.len(),
    ensures
        lowered_text(s).len() == s.len(),
        'A' <= s[i] <= 'Z' ==> lowered_text(s)[i] as int == s[i] as int + 32,
        !('A' <= s[i] <= 'Z') ==> lowered_text(s)[i] == s[i],
{
}

} // verus!
