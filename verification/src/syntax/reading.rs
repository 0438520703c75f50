//! What the tokens of a line say of its text.
//!
//! The lexers are told apart by what they do. These are statements on the text
//! itself: where quoted text, a comment, a number or an expansion stands in a line,
//! the tokens say so, and where the tokens say so, it stands there.
use vstd::prelude::*;
use vstd::utf8::{encode_utf8, is_char_boundary, valid_utf8};

use crate::syntax::language::Language;
use crate::syntax::lexer::{
    among, comment_starts, found, head, heredoc_found, is_key_byte, is_triple, key_start, lead, lemma_found, lemma_head, lemma_lead, lexed, literal_words, mark_found, opens_string,
    scanned, shell_words,
    swallowed, switch_words, tag_start, triple_stop, variable_found, word_kind, FoundView,
};
use crate::syntax::scan::{
    after_blanks, digits_stop, is_blank, is_digit_byte, is_word_byte, left, lemma_number_stop, lemma_quote_stop, lemma_run_end, lemma_step, number_stop, quote_stop, run_end, step, timestamp_at, word_stop,
};
use crate::syntax::token::{filled, open_from, plain_run, tiled, CarryView, Token, TokenKind};
use crate::text::{is_white, trimmed_end, trimmed_start};

verus! {

/// How many backslashes stand right before an offset, after the quote that opened.
pub open spec fn backslashes(bytes: Seq<u8>, from: int, at: int) -> int
    decreases at - from,
{
    if from < at - 1 && bytes[at - 1] == 0x5c {
        1 + backslashes(bytes, from, at - 1)
    } else {
        0
    }
}

/// A quote at an offset is part of the text: only between double quotes, behind an
/// odd number of backslashes.
pub open spec fn is_escaped(bytes: Seq<u8>, from: int, at: int) -> bool {
    bytes[from] == 0x22 && backslashes(bytes, from, at) % 2 == 1
}

/// No quote after the one that opened closes it before an offset.
pub open spec fn stays_open(bytes: Seq<u8>, from: int, to: int) -> bool {
    forall|k: int| from < k < to && #[trigger] bytes[k] == bytes[from] ==> is_escaped(bytes, from, k)
}

/// From a quote to the next one of its kind that no backslash escapes.
pub open spec fn is_quoted(bytes: Seq<u8>, from: int, to: int) -> bool {
    &&& 0 <= from
    &&& from + 2 <= to <= bytes.len()
    &&& bytes[to - 1] == bytes[from]
    &&& !is_escaped(bytes, from, to - 1)
    &&& stays_open(bytes, from, to - 1)
}

/// A byte opens quoted text: a double quote, or outside of JSON a single one.
pub open spec fn opens_quote(language: Language, byte: u8) -> bool {
    byte == 0x22 || (byte == 0x27 && !(language is Json))
}

/// Three quotes of one kind in a row, which TOML reads as one.
pub open spec fn is_tripled(bytes: Seq<u8>, at: int) -> bool {
    at + 2 < bytes.len() && bytes[at + 1] == bytes[at] && bytes[at + 2] == bytes[at]
}

/// After blanks comes a colon.
pub open spec fn is_named(bytes: Seq<u8>, at: int) -> bool {
    exists|colon: int|
        at <= colon < bytes.len() && #[trigger] bytes[colon] == 0x3a && forall|k: int|
            at <= k < colon ==> #[trigger] bytes[k] == 0x20 || bytes[k] == 0x09
}

/// No token but plain text reaches over an offset from before it.
pub open spec fn is_outside(tokens: Seq<Token>, at: int) -> bool {
    forall|i: int| 0 <= i < tokens.len() && (#[trigger] tokens[i]).start < at < tokens[i].end ==> tokens[i].kind is Plain
}

/// No heredoc operator stands before an offset.
pub open spec fn no_heredoc_before(language: Language, bytes: Seq<u8>, at: int) -> bool {
    language is Shell ==> forall|k: int| 0 <= k < at && #[trigger] bytes[k] == 0x3c ==> bytes[k + 1] != 0x3c
}

/// The bytes that a step passes over belong to one character.
proof fn lemma_step_inner(bytes: Seq<u8>, at: int, k: int)
    requires
        valid_utf8(bytes),
        0 <= at < bytes.len(),
        is_char_boundary(bytes, at),
        at < k < at + step(bytes, at),
    ensures
        k < bytes.len(),
        bytes[k] >= 0x80,
        !is_char_boundary(bytes, k),
    decreases bytes.len(),
{
    lemma_step(bytes, at);
    let width = vstd::utf8::length_of_first_scalar(bytes);
    let rest = vstd::utf8::pop_first_scalar(bytes);
    reveal_with_fuel(is_char_boundary, 2);
    if at > 0 {
        assert(at >= width);
        assert(rest[at - width] == bytes[at]);
        lemma_step_inner(rest, at - width, k - width);
    } else {
        assert(k < width);
    }
    vstd::utf8::is_char_boundary_iff_not_is_continuation_byte(bytes, k);
}

/// Reading on from an offset that no backslash escapes finds the quote that closes.
proof fn lemma_closing(bytes: Seq<u8>, from: int, at: int)
    requires
        valid_utf8(bytes),
        0 <= from < at <= bytes.len(),
        is_char_boundary(bytes, at),
        bytes[from] == 0x22 || bytes[from] == 0x27,
        bytes[from] == 0x22 ==> backslashes(bytes, from, at) % 2 == 0,
    ensures
        match quote_stop(bytes, at, bytes[from], bytes[from] == 0x22) {
            Some(end) => {
                &&& at < end <= bytes.len()
                &&& bytes[end - 1] == bytes[from]
                &&& !is_escaped(bytes, from, end - 1)
                &&& forall|k: int|
                    at <= k < end - 1 && #[trigger] bytes[k] == bytes[from] ==> is_escaped(bytes, from, k)
            },
            None => forall|k: int|
                at <= k < bytes.len() && #[trigger] bytes[k] == bytes[from] ==> is_escaped(bytes, from, k),
        },
    decreases bytes.len() - at,
{
    let quote = bytes[from];
    let escapes = quote == 0x22;
    if at < bytes.len() {
        lemma_step(bytes, at);
        if escapes && bytes[at] == 0x5c {
            if at + 1 < bytes.len() {
                lemma_step(bytes, at + 1);
                let next = at + 1 + step(bytes, at + 1);
                assert(backslashes(bytes, from, at + 1) == 1 + backslashes(bytes, from, at));
                assert(is_escaped(bytes, from, at + 1));
                if next == at + 2 {
                    if bytes[at + 1] == 0x5c {
                        assert(backslashes(bytes, from, next) == 1 + backslashes(bytes, from, at + 1));
                    } else {
                        assert(backslashes(bytes, from, next) == 0);
                    }
                } else {
                    lemma_step_inner(bytes, at + 1, next - 1);
                    assert(backslashes(bytes, from, next) == 0);
                }
                assert forall|k: int| at <= k < next && #[trigger] bytes[k] == quote implies is_escaped(
                    bytes,
                    from,
                    k,
                ) by {
                    if k > at + 1 {
                        lemma_step_inner(bytes, at + 1, k);
                    }
                }
                lemma_closing(bytes, from, next);
            }
        } else if bytes[at] != quote {
            let next = at + step(bytes, at);
            if escapes {
                if next == at + 1 {
                    assert(bytes[next - 1] != 0x5c);
                } else {
                    lemma_step_inner(bytes, at, next - 1);
                }
                assert(backslashes(bytes, from, next) == 0);
            }
            assert forall|k: int| at <= k < next && #[trigger] bytes[k] == quote implies is_escaped(bytes, from, k) by {
                if k > at {
                    lemma_step_inner(bytes, at, k);
                }
            }
            lemma_closing(bytes, from, next);
        }
    }
}

/// Quoted text is what the scanner finds after a quote.
proof fn lemma_quoted(bytes: Seq<u8>, from: int, to: int)
    requires
        valid_utf8(bytes),
        0 <= from < bytes.len(),
        bytes[from] == 0x22 || bytes[from] == 0x27,
    ensures
        is_quoted(bytes, from, to) <==> quote_stop(bytes, from + 1, bytes[from], bytes[from] == 0x22) == Some(to),
        quote_stop(bytes, from + 1, bytes[from], bytes[from] == 0x22) is None <==> stays_open(
            bytes,
            from,
            bytes.len() as int,
        ),
{
    vstd::utf8::is_char_boundary_iff_not_is_continuation_byte(bytes, from);
    lemma_step(bytes, from);
    lemma_closing(bytes, from, from + 1);
    match quote_stop(bytes, from + 1, bytes[from], bytes[from] == 0x22) {
        Some(end) => {
            assert(is_quoted(bytes, from, end));
            assert(bytes[end - 1] == bytes[from] && !is_escaped(bytes, from, end - 1));
            if is_quoted(bytes, from, to) {
                assert(bytes[to - 1] == bytes[from] && !is_escaped(bytes, from, to - 1));
            }
        },
        None => {
            if is_quoted(bytes, from, to) {
                assert(bytes[to - 1] == bytes[from]);
            }
        },
    }
}

/// A colon after blanks is what the scanner looks for after a key.
proof fn lemma_named(bytes: Seq<u8>, at: int)
    requires
        0 <= at <= bytes.len(),
    ensures
        is_named(bytes, at) <==> (after_blanks(bytes, at) < bytes.len() && bytes[after_blanks(bytes, at)] == 0x3a),
{
    lemma_run_end(bytes, at, |byte: u8| is_blank(byte));
    let stop = after_blanks(bytes, at);
    if is_named(bytes, at) {
        let colon = choose|colon: int|
            at <= colon < bytes.len() && #[trigger] bytes[colon] == 0x3a && forall|k: int|
                at <= k < colon ==> #[trigger] bytes[k] == 0x20 || bytes[k] == 0x09;
        if stop < colon {
            assert(is_blank(bytes[stop]));
        }
        if colon < stop {
            assert(is_blank(bytes[colon]));
        }
    }
    if stop < bytes.len() && bytes[stop] == 0x3a {
        assert(bytes[stop] == 0x3a);
    }
}

/// The scanner comes to every offset that no token reaches over.
proof fn lemma_reached(language: Language, bytes: Seq<u8>, at: int, carry: CarryView, spot: int)
    requires
        valid_utf8(bytes),
        bytes.len() <= usize::MAX,
        0 <= at <= spot < bytes.len(),
        is_char_boundary(bytes, at),
        is_char_boundary(bytes, spot),
        !is_blank(bytes[spot]),
        is_outside(scanned(language, bytes, at, carry).0, spot),
        no_heredoc_before(language, bytes, spot),
    ensures
        forall|token: Token| #[trigger]
            scanned(language, bytes, spot, carry).0.contains(token) ==> scanned(
                language,
                bytes,
                at,
                carry,
            ).0.contains(token),
        scanned(language, bytes, spot, carry).1 == scanned(language, bytes, at, carry).1,
    decreases bytes.len() - at,
{
    if at < spot {
        let spans = scanned(language, bytes, at, carry).0;
        lemma_found(language, bytes, at);
        lemma_step(bytes, at);
        match found(language, bytes, at) {
            FoundView::Nothing => {
                let next = at + step(bytes, at);
                if spot < next {
                    lemma_step_inner(bytes, at, spot);
                }
                lemma_reached(language, bytes, next, carry, spot);
            },
            FoundView::Span(kind, end) => {
                let rest = scanned(language, bytes, end, carry).0;
                let token = Token { kind, start: at as usize, end: end as usize };
                assert(spans[0] == token);
                if spot < end {
                    assert(kind is Plain);
                    assert(false);
                }
                assert forall|i: int| 0 <= i < rest.len() && (#[trigger] rest[i]).start < spot < rest[i].end implies
                    rest[i].kind is Plain by {
                    assert(spans[i + 1] == rest[i]);
                }
                lemma_reached(language, bytes, end, carry, spot);
                assert forall|other: Token| #[trigger]
                    scanned(language, bytes, spot, carry).0.contains(other) implies spans.contains(other) by {
                    assert(rest.contains(other));
                    let i = choose|i: int| 0 <= i < rest.len() && rest[i] == other;
                    assert(spans[i + 1] == other);
                }
            },
            FoundView::Open(kind, open) => {
                let token = Token { kind, start: at as usize, end: bytes.len() as usize };
                assert(spans[0] == token);
                assert(kind is Plain);
                lemma_run_end(bytes, at + 1, |byte: u8| is_blank(byte));
                assert(is_blank(bytes[spot]));
            },
            FoundView::Tag(end, open) => {
                assert(bytes[at] == 0x3c);
            },
        }
    }
}

/// Every span is a token, and every other token is plain.
proof fn lemma_tiled(spans: Seq<Token>, len: int)
    ensures
        forall|token: Token| #[trigger] spans.contains(token) ==> tiled(spans, len).contains(token),
        forall|i: int|
            0 <= i < tiled(spans, len).len() ==> (#[trigger] tiled(spans, len)[i]).kind is Plain || spans.contains(
                tiled(spans, len)[i],
            ),
{
    lemma_filled_spans(spans);
    let tokens = tiled(spans, len);
    let all = filled(spans);
    let gap = plain_run(open_from(spans), len);
    assert forall|token: Token| #[trigger] spans.contains(token) implies tokens.contains(token) by {
        assert(all.contains(token));
        let i = choose|i: int| 0 <= i < all.len() && all[i] == token;
        assert(tokens[i] == token);
    }
    assert forall|i: int| 0 <= i < tokens.len() implies (#[trigger] tokens[i]).kind is Plain || spans.contains(
        tokens[i],
    ) by {
        if i < all.len() {
            assert(tokens[i] == all[i]);
        } else {
            assert(tokens[i] == gap[i - all.len()]);
        }
    }
}

proof fn lemma_filled_spans(spans: Seq<Token>)
    ensures
        forall|token: Token| #[trigger] spans.contains(token) ==> filled(spans).contains(token),
        forall|i: int|
            0 <= i < filled(spans).len() ==> (#[trigger] filled(spans)[i]).kind is Plain || spans.contains(
                filled(spans)[i],
            ),
    decreases spans.len(),
{
    if spans.len() > 0 {
        let before = spans.drop_last();
        lemma_filled_spans(before);
        let all = filled(spans);
        let most = filled(before);
        let gap = plain_run(open_from(before), spans.last().start as int);
        assert forall|token: Token| #[trigger] spans.contains(token) implies all.contains(token) by {
            let i = choose|i: int| 0 <= i < spans.len() && spans[i] == token;
            if i < before.len() {
                assert(before[i] == token);
                assert(before.contains(token));
                let j = choose|j: int| 0 <= j < most.len() && most[j] == token;
                assert(all[j] == token);
            } else {
                assert(all[all.len() - 1] == token);
            }
        }
        assert forall|i: int| 0 <= i < all.len() implies (#[trigger] all[i]).kind is Plain || spans.contains(
            all[i],
        ) by {
            if i < most.len() {
                assert(all[i] == most[i]);
                if before.contains(most[i]) {
                    let j = choose|j: int| 0 <= j < before.len() && before[j] == most[i];
                    assert(spans[j] == all[i]);
                }
            } else if i < most.len() + gap.len() {
                assert(all[i] == gap[i - most.len()]);
            } else {
                assert(all[i] == spans[spans.len() - 1]);
            }
        }
    }
}

/// What the scanner finds at an offset that no token reaches over is among the tokens
/// of the line.
proof fn lemma_read(line: Seq<char>, state: CarryView, language: Language, spot: int)
    requires
        encode_utf8(line).len() <= usize::MAX,
        !(language is Plain),
        state is Start || state is Continued,
        0 <= spot < encode_utf8(line).len(),
        is_char_boundary(encode_utf8(line), spot),
        !is_blank(encode_utf8(line)[spot]),
        is_outside(lexed(line, state, language).0, spot),
        no_heredoc_before(language, encode_utf8(line), spot),
        head(language, state, encode_utf8(line)) matches Some((kind, start, end)) ==> spot != start && encode_utf8(
            line,
        )[spot] != 0x2d,
    ensures
        forall|token: Token| #[trigger]
            scanned(language, encode_utf8(line), spot, CarryView::Start).0.contains(token) ==> lexed(
                line,
                state,
                language,
            ).0.contains(token),
        scanned(language, encode_utf8(line), spot, CarryView::Start).1 == lexed(line, state, language).1,
{
    let bytes = encode_utf8(line);
    let len = bytes.len() as int;
    vstd::utf8::encode_utf8_valid_utf8(line);
    let first = lead(language, state, bytes);
    lemma_lead(language, state, bytes);
    lemma_head(language, state, bytes);
    let from = open_from(first);
    let rest = scanned(language, bytes, from, CarryView::Start).0;
    let spans = first + rest;
    let tokens = lexed(line, state, language).0;
    assert(swallowed(language, state, line, bytes) is None);
    assert(tokens == tiled(spans, len));
    lemma_tiled(spans, len);
    assert(is_outside(spans, spot)) by {
        assert forall|i: int| 0 <= i < spans.len() && (#[trigger] spans[i]).start < spot < spans[i].end implies
            spans[i].kind is Plain by {
            assert(spans.contains(spans[i]));
            let j = choose|j: int| 0 <= j < tokens.len() && tokens[j] == spans[i];
            assert(tokens[j].kind is Plain);
        }
    }
    if first.len() > 0 {
        assert(spans[0] == first[0]);
        assert(first.last() == first[0]);
        let start = key_start(language, bytes);
        let blanks = after_blanks(bytes, 0);
        lemma_run_end(bytes, 0, |byte: u8| is_blank(byte));
        lemma_run_end(bytes, blanks + 1, |byte: u8| is_blank(byte));
        assert(first[0].start == start);
        if spot < start {
            assert(is_blank(bytes[spot]) || bytes[spot] == 0x2d);
        }
    }
    assert(is_outside(rest, spot)) by {
        assert forall|i: int| 0 <= i < rest.len() && (#[trigger] rest[i]).start < spot < rest[i].end implies
            rest[i].kind is Plain by {
            assert(spans[i + first.len()] == rest[i]);
        }
    }
    lemma_reached(language, bytes, from, CarryView::Start, spot);
    assert forall|token: Token| #[trigger]
        scanned(language, bytes, spot, CarryView::Start).0.contains(token) implies tokens.contains(token) by {
        assert(rest.contains(token));
        let i = choose|i: int| 0 <= i < rest.len() && rest[i] == token;
        assert(spans[i + first.len()] == token);
        assert(spans.contains(token));
    }
}

/// Quoted text that opens outside of any other token and closes on its line is one
/// token, a string, from the quote that opens it to the one that closes it. A key of
/// JSON is told by the colon after it, and three quotes of TOML are one.
pub proof fn quoted_text_is_a_string(line: Seq<char>, state: CarryView, language: Language, from: int, to: int)
    requires
        encode_utf8(line).len() <= usize::MAX,
        !(language is Plain),
        state is Start || state is Continued,
        is_quoted(encode_utf8(line), from, to),
        opens_quote(language, encode_utf8(line)[from]),
        is_outside(lexed(line, state, language).0, from),
        no_heredoc_before(language, encode_utf8(line), from),
        language is Json ==> !is_named(encode_utf8(line), to),
        language is Toml ==> !is_tripled(encode_utf8(line), from),
    ensures
        lexed(line, state, language).0.contains(
            (Token { kind: TokenKind::String, start: from as usize, end: to as usize }),
        ),
{
    let bytes = encode_utf8(line);
    vstd::utf8::encode_utf8_valid_utf8(line);
    vstd::utf8::is_char_boundary_iff_not_is_continuation_byte(bytes, from);
    lemma_quoted(bytes, from, to);
    lemma_named(bytes, to);
    lemma_run_end(bytes, 0, |byte: u8| is_blank(byte));
    lemma_read(line, state, language, from);
    let spans = scanned(language, bytes, from, CarryView::Start).0;
    let token = Token { kind: TokenKind::String, start: from as usize, end: to as usize };
    assert(spans[0] == token);
    assert(spans.contains(token));
}

/// In JSON, quoted text that a colon follows is a key.
pub proof fn quoted_text_before_a_colon_is_a_key(line: Seq<char>, from: int, to: int)
    requires
        encode_utf8(line).len() <= usize::MAX,
        is_quoted(encode_utf8(line), from, to),
        encode_utf8(line)[from] == 0x22,
        is_outside(lexed(line, CarryView::Start, Language::Json).0, from),
        is_named(encode_utf8(line), to),
    ensures
        lexed(line, CarryView::Start, Language::Json).0.contains(
            (Token { kind: TokenKind::Key, start: from as usize, end: to as usize }),
        ),
{
    let bytes = encode_utf8(line);
    vstd::utf8::encode_utf8_valid_utf8(line);
    vstd::utf8::is_char_boundary_iff_not_is_continuation_byte(bytes, from);
    lemma_quoted(bytes, from, to);
    lemma_named(bytes, to);
    lemma_run_end(bytes, to, |byte: u8| is_blank(byte));
    lemma_read(line, CarryView::Start, Language::Json, from);
    let spans = scanned(Language::Json, bytes, from, CarryView::Start).0;
    let token = Token { kind: TokenKind::Key, start: from as usize, end: to as usize };
    assert(spans[0] == token);
    assert(spans.contains(token));
}

/// Quoted text that does not close on its line is a string to the end of it. A shell
/// carries the quote to the next line, all other formats forget it.
pub proof fn an_open_quote_reaches_the_end(line: Seq<char>, state: CarryView, language: Language, from: int)
    requires
        encode_utf8(line).len() <= usize::MAX,
        !(language is Plain),
        state is Start || state is Continued,
        0 <= from < encode_utf8(line).len(),
        opens_quote(language, encode_utf8(line)[from]),
        stays_open(encode_utf8(line), from, encode_utf8(line).len() as int),
        is_outside(lexed(line, state, language).0, from),
        no_heredoc_before(language, encode_utf8(line), from),
        language is Toml ==> !is_tripled(encode_utf8(line), from),
    ensures
        lexed(line, state, language).0.contains(
            (Token { kind: TokenKind::String, start: from as usize, end: encode_utf8(line).len() as usize }),
        ),
        language is Shell ==> lexed(line, state, language).1 == CarryView::Quote(encode_utf8(line)[from]),
        !(language is Shell) ==> lexed(line, state, language).1 is Start,
{
    let bytes = encode_utf8(line);
    vstd::utf8::encode_utf8_valid_utf8(line);
    vstd::utf8::is_char_boundary_iff_not_is_continuation_byte(bytes, from);
    lemma_quoted(bytes, from, 0);
    lemma_run_end(bytes, 0, |byte: u8| is_blank(byte));
    lemma_read(line, state, language, from);
    let spans = scanned(language, bytes, from, CarryView::Start).0;
    let token = Token { kind: TokenKind::String, start: from as usize, end: bytes.len() as usize };
    assert(spans[0] == token);
    assert(spans.contains(token));
}

/// No three quotes of a kind stand in a row from one offset up to another.
pub open spec fn no_triple(bytes: Seq<u8>, quote: u8, from: int, to: int) -> bool {
    forall|k: int| from <= k < to && #[trigger] bytes[k] == quote ==> !is_tripled(bytes, k)
}

proof fn lemma_triple(bytes: Seq<u8>, at: int, quote: u8)
    requires
        0 <= at,
    ensures
        match triple_stop(bytes, at, quote) {
            Some(end) => {
                &&& at + 3 <= end <= bytes.len()
                &&& bytes[end - 3] == quote
                &&& is_tripled(bytes, end - 3)
                &&& no_triple(bytes, quote, at, end - 3)
            },
            None => no_triple(bytes, quote, at, bytes.len() as int),
        },
    decreases left(bytes, at),
{
    if at < bytes.len() && !is_triple(bytes, at, quote) {
        lemma_triple(bytes, at + 1, quote);
    }
}

/// Three quotes of TOML open a string that the next three close. Where the line has
/// none, it is a string to its end and the next line goes on in it.
pub proof fn three_quotes_are_one(line: Seq<char>, from: int, to: int)
    requires
        encode_utf8(line).len() <= usize::MAX,
        0 <= from < encode_utf8(line).len(),
        encode_utf8(line)[from] == 0x22 || encode_utf8(line)[from] == 0x27,
        is_tripled(encode_utf8(line), from),
        is_outside(lexed(line, CarryView::Start, Language::Toml).0, from),
        from + 6 <= to <= encode_utf8(line).len() ==> encode_utf8(line)[to - 3] == encode_utf8(line)[from]
            && is_tripled(encode_utf8(line), to - 3) && no_triple(
            encode_utf8(line),
            encode_utf8(line)[from],
            from + 3,
            to - 3,
        ),
        from + 6 <= to,
        to > encode_utf8(line).len() ==> no_triple(
            encode_utf8(line),
            encode_utf8(line)[from],
            from + 3,
            encode_utf8(line).len() as int,
        ),
    ensures
        to <= encode_utf8(line).len() ==> lexed(line, CarryView::Start, Language::Toml).0.contains(
            (Token { kind: TokenKind::String, start: from as usize, end: to as usize }),
        ),
        to > encode_utf8(line).len() ==> lexed(line, CarryView::Start, Language::Toml).0.contains(
            (Token { kind: TokenKind::String, start: from as usize, end: encode_utf8(line).len() as usize }),
        ) && lexed(line, CarryView::Start, Language::Toml).1 == CarryView::Multiline(encode_utf8(line)[from]),
{
    let bytes = encode_utf8(line);
    vstd::utf8::encode_utf8_valid_utf8(line);
    vstd::utf8::is_char_boundary_iff_not_is_continuation_byte(bytes, from);
    lemma_triple(bytes, from + 3, bytes[from]);
    lemma_run_end(bytes, 0, |byte: u8| is_blank(byte));
    lemma_read(line, CarryView::Start, Language::Toml, from);
    let spans = scanned(Language::Toml, bytes, from, CarryView::Start).0;
    match triple_stop(bytes, from + 3, bytes[from]) {
        Some(end) => {
            assert(bytes[end - 3] == bytes[from]);
            if to <= bytes.len() {
                assert(bytes[to - 3] == bytes[from]);
                assert(end == to);
            }
        },
        None => {
            if to <= bytes.len() {
                assert(bytes[to - 3] == bytes[from]);
            }
        },
    }
    assert(spans.contains(spans[0]));
}

/// A number sign at the start of a line or after a blank comments the rest of it out,
/// where the format has comments; so does a semicolon in a config file.
pub proof fn a_comment_sign_comments_out_the_rest(line: Seq<char>, state: CarryView, language: Language, from: int)
    requires
        encode_utf8(line).len() <= usize::MAX,
        !(language is Plain),
        !(language is Json),
        state is Start || state is Continued,
        0 <= from < encode_utf8(line).len(),
        encode_utf8(line)[from] == 0x23 || (language is Conf && encode_utf8(line)[from] == 0x3b),
        from > 0 ==> encode_utf8(line)[from - 1] == 0x20 || encode_utf8(line)[from - 1] == 0x09,
        is_outside(lexed(line, state, language).0, from),
        no_heredoc_before(language, encode_utf8(line), from),
    ensures
        lexed(line, state, language).0.contains(
            (Token { kind: TokenKind::Comment, start: from as usize, end: encode_utf8(line).len() as usize }),
        ),
        lexed(line, state, language).1 is Start,
{
    let bytes = encode_utf8(line);
    vstd::utf8::encode_utf8_valid_utf8(line);
    vstd::utf8::is_char_boundary_iff_not_is_continuation_byte(bytes, from);
    lemma_run_end(bytes, 0, |byte: u8| is_blank(byte));
    lemma_read(line, state, language, from);
    let spans = scanned(language, bytes, from, CarryView::Start).0;
    let token = Token { kind: TokenKind::Comment, start: from as usize, end: bytes.len() as usize };
    assert(scanned(language, bytes, bytes.len() as int, CarryView::Start).1 is Start);
    assert(spans[0] == token);
    assert(spans.contains(token));
}

/// A letter, a digit or an underscore.
pub open spec fn in_word(byte: u8) -> bool {
    0x61 <= byte <= 0x7a || 0x41 <= byte <= 0x5a || 0x30 <= byte <= 0x39 || byte == 0x5f
}

/// The rest of a word, from an offset on.
pub open spec fn is_word(bytes: Seq<u8>, from: int, to: int) -> bool {
    &&& 0 <= from < to <= bytes.len()
    &&& forall|k: int| from <= k < to ==> in_word(#[trigger] bytes[k])
    &&& to < bytes.len() ==> !in_word(bytes[to])
}

proof fn lemma_word(bytes: Seq<u8>, from: int, to: int)
    requires
        is_word(bytes, from, to),
    ensures
        word_stop(bytes, from) == to,
{
    lemma_run_end(bytes, from, |byte: u8| is_word_byte(byte));
    let stop = word_stop(bytes, from);
    if stop < to {
        assert(in_word(bytes[stop]));
    }
    if to < stop {
        assert(is_word_byte(bytes[to]));
    }
}

/// The first occurrence of a byte from an offset on.
proof fn lemma_first(bytes: Seq<u8>, at: int, quote: u8, to: int)
    requires
        valid_utf8(bytes),
        0 <= at <= bytes.len(),
        is_char_boundary(bytes, at),
        quote < 0x80,
        at < to <= bytes.len() ==> bytes[to - 1] == quote,
        at < to,
        forall|k: int| at <= k < bytes.len() && k < to - 1 ==> #[trigger] bytes[k] != quote,
    ensures
        quote_stop(bytes, at, quote, false) == (if to <= bytes.len() {
            Some(to)
        } else {
            None
        }),
    decreases bytes.len() - at,
{
    if at < bytes.len() {
        lemma_step(bytes, at);
        let next = at + step(bytes, at);
        if bytes[at] == quote {
            assert(to == at + 1);
        } else {
            assert(at < to - 1);
            if to <= bytes.len() && to - 1 < next {
                lemma_step_inner(bytes, at, to - 1);
            }
            if next < to {
                lemma_first(bytes, next, quote, to);
            } else {
                assert(to <= bytes.len());
            }
        }
    }
}

/// A dollar sign and the name after it are one expansion, in the formats that have
/// them; so is a name in braces, up to the brace that closes it or to the end.
pub proof fn a_dollar_sign_expands(line: Seq<char>, state: CarryView, language: Language, from: int, to: int)
    requires
        encode_utf8(line).len() <= usize::MAX,
        language is Shell || language is Dockerfile || language is Conf,
        state is Start || state is Continued,
        0 <= from,
        from + 1 < to <= encode_utf8(line).len(),
        encode_utf8(line)[from] == 0x24,
        is_word(encode_utf8(line), from + 1, to) || (encode_utf8(line)[from + 1] == 0x7b && (forall|k: int|
            from + 2 <= k < to - 1 ==> #[trigger] encode_utf8(line)[k] != 0x7d) && (to == encode_utf8(line).len() || (to > from
            + 2 && encode_utf8(line)[to - 1] == 0x7d))),
        is_outside(lexed(line, state, language).0, from),
        no_heredoc_before(language, encode_utf8(line), from),
    ensures
        lexed(line, state, language).0.contains(
            (Token { kind: TokenKind::Variable, start: from as usize, end: to as usize }),
        ),
{
    let bytes = encode_utf8(line);
    vstd::utf8::encode_utf8_valid_utf8(line);
    vstd::utf8::is_char_boundary_iff_not_is_continuation_byte(bytes, from);
    lemma_run_end(bytes, 0, |byte: u8| is_blank(byte));
    lemma_read(line, state, language, from);
    if is_word(bytes, from + 1, to) {
        assert(in_word(bytes[from + 1]));
        lemma_word(bytes, from + 1, to);
    } else {
        lemma_step(bytes, from);
        lemma_step(bytes, from + 1);
        if to > from + 2 && bytes[to - 1] == 0x7d {
            lemma_first(bytes, from + 2, 0x7d, to);
        } else {
            assert forall|k: int| from + 2 <= k < bytes.len() && k < to implies #[trigger] bytes[k] != 0x7d by {}
            lemma_first(bytes, from + 2, 0x7d, to + 1);
        }
    }
    let spans = scanned(language, bytes, from, CarryView::Start).0;
    let token = Token { kind: TokenKind::Variable, start: from as usize, end: to as usize };
    assert(spans[0] == token);
    assert(spans.contains(token));
}

/// An anchor or an alias of YAML is an expansion with its name.
pub proof fn anchors_and_aliases_are_expansions(line: Seq<char>, from: int, to: int)
    requires
        encode_utf8(line).len() <= usize::MAX,
        0 <= from,
        encode_utf8(line)[from] == 0x26 || encode_utf8(line)[from] == 0x2a,
        from > 0 ==> encode_utf8(line)[from - 1] == 0x20 || encode_utf8(line)[from - 1] == 0x09,
        is_word(encode_utf8(line), from + 1, to),
        is_outside(lexed(line, CarryView::Start, Language::Yaml).0, from),
    ensures
        lexed(line, CarryView::Start, Language::Yaml).0.contains(
            (Token { kind: TokenKind::Variable, start: from as usize, end: to as usize }),
        ),
{
    let bytes = encode_utf8(line);
    vstd::utf8::encode_utf8_valid_utf8(line);
    vstd::utf8::is_char_boundary_iff_not_is_continuation_byte(bytes, from);
    lemma_run_end(bytes, 0, |byte: u8| is_blank(byte));
    lemma_run_end(bytes, after_blanks(bytes, 0) + 1, |byte: u8| is_blank(byte));
    lemma_run_end(bytes, key_start(Language::Yaml, bytes), |byte: u8| is_key_byte(byte));
    lemma_read(line, CarryView::Start, Language::Yaml, from);
    assert(in_word(bytes[from + 1]));
    lemma_word(bytes, from + 1, to);
    let spans = scanned(Language::Yaml, bytes, from, CarryView::Start).0;
    let token = Token { kind: TokenKind::Variable, start: from as usize, end: to as usize };
    assert(spans[0] == token);
    assert(spans.contains(token));
}

/// The words that a shell reserves.
pub open spec fn is_reserved(word: Seq<u8>) -> bool {
    ||| word == encode_utf8("if"@)
    ||| word == encode_utf8("then"@)
    ||| word == encode_utf8("else"@)
    ||| word == encode_utf8("elif"@)
    ||| word == encode_utf8("fi"@)
    ||| word == encode_utf8("for"@)
    ||| word == encode_utf8("while"@)
    ||| word == encode_utf8("until"@)
    ||| word == encode_utf8("do"@)
    ||| word == encode_utf8("done"@)
    ||| word == encode_utf8("case"@)
    ||| word == encode_utf8("esac"@)
    ||| word == encode_utf8("in"@)
    ||| word == encode_utf8("function"@)
    ||| word == encode_utf8("return"@)
    ||| word == encode_utf8("exit"@)
    ||| word == encode_utf8("local"@)
    ||| word == encode_utf8("export"@)
}

/// The words that stand for a value: three everywhere but in shells and Dockerfiles,
/// four more in YAML and config files.
pub open spec fn is_value(language: Language, word: Seq<u8>) -> bool {
    ||| (language is Json || language is Yaml || language is Toml || language is Conf) && (word == encode_utf8(
        "true"@,
    ) || word == encode_utf8("false"@) || word == encode_utf8("null"@))
    ||| (language is Yaml || language is Conf) && (word == encode_utf8("yes"@) || word == encode_utf8("no"@) || word
        == encode_utf8("on"@) || word == encode_utf8("off"@))
}

#[verifier::spinoff_prover]
proof fn lemma_reserved(word: Seq<u8>)
    ensures
        among(word, shell_words()) <==> is_reserved(word),
{
    let words = shell_words();
    assert(words.len() == 18);
    if is_reserved(word) {
        assert(word == encode_utf8(words[0]) || word == encode_utf8(words[1]) || word == encode_utf8(words[2]) || word
            == encode_utf8(words[3]) || word == encode_utf8(words[4]) || word == encode_utf8(words[5]) || word
            == encode_utf8(words[6]) || word == encode_utf8(words[7]) || word == encode_utf8(words[8]) || word
            == encode_utf8(words[9]) || word == encode_utf8(words[10]) || word == encode_utf8(words[11]) || word
            == encode_utf8(words[12]) || word == encode_utf8(words[13]) || word == encode_utf8(words[14]) || word
            == encode_utf8(words[15]) || word == encode_utf8(words[16]) || word == encode_utf8(words[17]));
    }
}

#[verifier::spinoff_prover]
proof fn lemma_value(language: Language, word: Seq<u8>)
    requires
        !(language is Plain),
    ensures
        is_value(language, word) <==> word_kind(language, word) is Literal,
        word_kind(language, word) is Keyword <==> language is Shell && is_reserved(word),
        word_kind(language, word) is Plain || word_kind(language, word) is Literal || word_kind(
            language,
            word,
        ) is Keyword,
{
    lemma_reserved(word);
    let words = literal_words();
    let more = switch_words();
    assert(words.len() == 3 && more.len() == 4);
    assert(among(word, words) <==> word == encode_utf8("true"@) || word == encode_utf8("false"@) || word
        == encode_utf8("null"@)) by {
        assert(words[0] == "true"@ && words[1] == "false"@ && words[2] == "null"@);
    }
    assert(among(word, more) <==> word == encode_utf8("yes"@) || word == encode_utf8("no"@) || word == encode_utf8(
        "on"@,
    ) || word == encode_utf8("off"@)) by {
        assert(more[0] == "yes"@ && more[1] == "no"@ && more[2] == "on"@ && more[3] == "off"@);
    }
}

/// An offset that no word reaches over.
pub open spec fn starts_word(bytes: Seq<u8>, at: int) -> bool {
    at > 0 ==> !in_word(bytes[at - 1])
}

/// A reserved word of a shell that stands alone is a keyword.
pub proof fn a_reserved_word_is_a_keyword(line: Seq<char>, from: int, to: int)
    requires
        encode_utf8(line).len() <= usize::MAX,
        is_word(encode_utf8(line), from, to),
        starts_word(encode_utf8(line), from),
        0x61 <= encode_utf8(line)[from] <= 0x7a,
        is_reserved(encode_utf8(line).subrange(from, to)),
        is_outside(lexed(line, CarryView::Start, Language::Shell).0, from),
        no_heredoc_before(Language::Shell, encode_utf8(line), from),
    ensures
        lexed(line, CarryView::Start, Language::Shell).0.contains(
            (Token { kind: TokenKind::Keyword, start: from as usize, end: to as usize }),
        ),
{
    let bytes = encode_utf8(line);
    vstd::utf8::encode_utf8_valid_utf8(line);
    vstd::utf8::is_char_boundary_iff_not_is_continuation_byte(bytes, from);
    lemma_read(line, CarryView::Start, Language::Shell, from);
    lemma_word(bytes, from, to);
    lemma_value(Language::Shell, bytes.subrange(from, to));
    let spans = scanned(Language::Shell, bytes, from, CarryView::Start).0;
    let token = Token { kind: TokenKind::Keyword, start: from as usize, end: to as usize };
    assert(spans[0] == token);
    assert(spans.contains(token));
}

/// Something that is neither a blank nor a dash stands before an offset.
pub open spec fn is_led(bytes: Seq<u8>, at: int, before: int) -> bool {
    0 <= before < at && bytes[before] != 0x20 && bytes[before] != 0x09 && bytes[before] != 0x2d
}

proof fn lemma_led(language: Language, state: CarryView, bytes: Seq<u8>, at: int, before: int)
    requires
        is_led(bytes, at, before),
        at < bytes.len(),
    ensures
        head(language, state, bytes) matches Some((kind, start, end)) ==> at != start,
{
    lemma_run_end(bytes, 0, |byte: u8| is_blank(byte));
    let first = after_blanks(bytes, 0);
    lemma_run_end(bytes, first + 1, |byte: u8| is_blank(byte));
    if key_start(language, bytes) == at {
        if before < first {
            assert(is_blank(bytes[before]));
        } else if before > first {
            assert(is_blank(bytes[before]));
        }
    }
}

/// A word that stands for a value is a literal, behind a key or inside of a list.
pub proof fn a_value_word_is_a_literal(line: Seq<char>, language: Language, from: int, to: int, before: int)
    requires
        encode_utf8(line).len() <= usize::MAX,
        is_word(encode_utf8(line), from, to),
        starts_word(encode_utf8(line), from),
        0x61 <= encode_utf8(line)[from] <= 0x7a,
        is_value(language, encode_utf8(line).subrange(from, to)),
        is_outside(lexed(line, CarryView::Start, language).0, from),
        language is Json || is_led(encode_utf8(line), from, before),
    ensures
        lexed(line, CarryView::Start, language).0.contains(
            (Token { kind: TokenKind::Literal, start: from as usize, end: to as usize }),
        ),
{
    let bytes = encode_utf8(line);
    vstd::utf8::encode_utf8_valid_utf8(line);
    vstd::utf8::is_char_boundary_iff_not_is_continuation_byte(bytes, from);
    if !(language is Json) {
        lemma_led(language, CarryView::Start, bytes, from, before);
    }
    lemma_read(line, CarryView::Start, language, from);
    lemma_word(bytes, from, to);
    lemma_value(language, bytes.subrange(from, to));
    let spans = scanned(language, bytes, from, CarryView::Start).0;
    let token = Token { kind: TokenKind::Literal, start: from as usize, end: to as usize };
    assert(spans[0] == token);
    assert(spans.contains(token));
}

/// A digit that begins a word begins a number, and the number leaves no digit behind.
pub proof fn a_digit_begins_a_number(line: Seq<char>, language: Language, from: int, before: int) -> (to: int)
    requires
        encode_utf8(line).len() <= usize::MAX,
        !(language is Plain),
        0 <= from < encode_utf8(line).len(),
        0x30 <= encode_utf8(line)[from] <= 0x39,
        starts_word(encode_utf8(line), from),
        is_outside(lexed(line, CarryView::Start, language).0, from),
        no_heredoc_before(language, encode_utf8(line), from),
        language is Json || language is Shell || is_led(encode_utf8(line), from, before),
    ensures
        from < to <= encode_utf8(line).len(),
        to < encode_utf8(line).len() ==> !(0x30 <= encode_utf8(line)[to] <= 0x39),
        lexed(line, CarryView::Start, language).0.contains(
            (Token { kind: TokenKind::Number, start: from as usize, end: to as usize }),
        ),
        forall|end: int|
            #![trigger is_word(encode_utf8(line), from, end)]
            is_digits(encode_utf8(line), from, end) && is_word(encode_utf8(line), from, end) ==> to == end,
{
    let bytes = encode_utf8(line);
    vstd::utf8::encode_utf8_valid_utf8(line);
    vstd::utf8::is_char_boundary_iff_not_is_continuation_byte(bytes, from);
    if !(language is Json) && !(language is Shell) {
        lemma_led(language, CarryView::Start, bytes, from, before);
    }
    lemma_read(line, CarryView::Start, language, from);
    lemma_number_stop(bytes, from);
    let to = number_stop(bytes, from);
    let spans = scanned(language, bytes, from, CarryView::Start).0;
    let token = Token { kind: TokenKind::Number, start: from as usize, end: to as usize };
    assert(spans[0] == token);
    assert(spans.contains(token));
    assert forall|end: int|
        #![trigger is_word(bytes, from, end)]
        is_digits(bytes, from, end) && is_word(bytes, from, end) implies to == end by {
        lemma_digits(bytes, from, end);
    }
    to
}

/// Digits alone, and nothing behind them that a number could go on with.
pub open spec fn is_digits(bytes: Seq<u8>, from: int, to: int) -> bool {
    &&& 0 <= from < to <= bytes.len()
    &&& forall|k: int| from <= k < to ==> 0x30 <= #[trigger] bytes[k] <= 0x39
    &&& to < bytes.len() ==> bytes[to] != 0x2e && bytes[to] != 0x3a && bytes[to] != 0x2d
}

proof fn lemma_digits(bytes: Seq<u8>, from: int, to: int)
    requires
        is_digits(bytes, from, to),
        is_word(bytes, from, to),
    ensures
        number_stop(bytes, from) == to,
{
    lemma_run_end(bytes, from, |byte: u8| is_digit_byte(byte));
    let stop = digits_stop(bytes, from);
    if stop < to {
        assert(0x30 <= bytes[stop] <= 0x39);
    }
    if to < stop {
        assert(is_digit_byte(bytes[to]));
    }
    assert(0x30 <= bytes[from] <= 0x39);
    if from + 1 < to {
        assert(0x30 <= bytes[from + 1] <= 0x39);
    }
    if timestamp_at(bytes, from) {
        if from + 4 < to {
            assert(0x30 <= bytes[from + 4] <= 0x39);
        }
        assert(to == from + 1 || to == from + 2 || to == from + 3);
    }
}

/// A byte of a bare key: of a word, a dot or a dash.
pub open spec fn in_key(byte: u8) -> bool {
    in_word(byte) || byte == 0x2e || byte == 0x2d
}

/// Blanks alone from one offset up to another.
pub open spec fn is_bare(bytes: Seq<u8>, from: int, to: int) -> bool {
    forall|k: int| from <= k < to ==> #[trigger] bytes[k] == 0x20 || bytes[k] == 0x09
}

proof fn lemma_blanks(bytes: Seq<u8>, from: int, to: int)
    requires
        0 <= from <= to <= bytes.len(),
        is_bare(bytes, from, to),
        to < bytes.len() ==> bytes[to] != 0x20 && bytes[to] != 0x09,
    ensures
        after_blanks(bytes, from) == to,
{
    lemma_run_end(bytes, from, |byte: u8| is_blank(byte));
    let stop = after_blanks(bytes, from);
    if stop < to {
        assert(is_blank(bytes[stop]));
    }
    if to < stop {
        assert(is_blank(bytes[to]));
    }
}

/// What the head of a line is stands among its tokens.
proof fn lemma_headed(line: Seq<char>, state: CarryView, language: Language)
    requires
        encode_utf8(line).len() <= usize::MAX,
        !(language is Plain),
        state is Start || language is Dockerfile,
    ensures
        head(language, state, encode_utf8(line)) matches Some((kind, start, end)) ==> lexed(
            line,
            state,
            language,
        ).0.contains((Token { kind, start: start as usize, end: end as usize })),
{
    let bytes = encode_utf8(line);
    match head(language, state, bytes) {
        Some((kind, start, end)) => {
            let first = lead(language, state, bytes);
            let rest = scanned(language, bytes, open_from(first), CarryView::Start).0;
            let spans = first + rest;
            lemma_tiled(spans, bytes.len() as int);
            assert(spans[0] == Token { kind, start: start as usize, end: end as usize });
            assert(spans.contains(spans[0]));
        },
        None => {},
    }
}

/// The first word of a Dockerfile line is an instruction, unless the line goes on with
/// the one before.
pub proof fn a_line_begins_with_its_instruction(line: Seq<char>, state: CarryView, from: int, to: int)
    requires
        encode_utf8(line).len() <= usize::MAX,
        !(state is Continued),
        is_bare(encode_utf8(line), 0, from),
        is_word(encode_utf8(line), from, to),
        0x61 <= encode_utf8(line)[from] <= 0x7a || 0x41 <= encode_utf8(line)[from] <= 0x5a,
    ensures
        lexed(line, state, Language::Dockerfile).0.contains(
            (Token { kind: TokenKind::Keyword, start: from as usize, end: to as usize }),
        ),
{
    let bytes = encode_utf8(line);
    lemma_blanks(bytes, 0, from);
    lemma_word(bytes, from, to);
    lemma_headed(line, state, Language::Dockerfile);
}

/// A section header is a key, from its first bracket to the one that closes it.
pub proof fn a_section_header_is_a_key(line: Seq<char>, language: Language, from: int, to: int)
    requires
        encode_utf8(line).len() <= usize::MAX,
        language is Toml || language is Conf,
        0 <= from,
        from + 2 <= to <= encode_utf8(line).len(),
        is_bare(encode_utf8(line), 0, from),
        encode_utf8(line)[from] == 0x5b,
        encode_utf8(line)[to - 1] == 0x5d,
        forall|k: int| from < k < to - 1 ==> #[trigger] encode_utf8(line)[k] != 0x5d,
    ensures
        lexed(line, CarryView::Start, language).0.contains(
            (Token { kind: TokenKind::Key, start: from as usize, end: to as usize }),
        ),
{
    let bytes = encode_utf8(line);
    vstd::utf8::encode_utf8_valid_utf8(line);
    vstd::utf8::is_char_boundary_iff_not_is_continuation_byte(bytes, from);
    lemma_step(bytes, from);
    lemma_blanks(bytes, 0, from);
    lemma_first(bytes, from + 1, 0x5d, to);
    lemma_headed(line, CarryView::Start, language);
}

/// A bare key is one that an equals sign follows, or in YAML a colon that a blank or
/// the end of the line follows. There it may stand behind the dash of a list.
pub proof fn a_key_is_told_by_its_separator(
    line: Seq<char>,
    language: Language,
    dash: int,
    from: int,
    to: int,
    separator: int,
)
    requires
        encode_utf8(line).len() <= usize::MAX,
        language is Toml || language is Conf || language is Yaml,
        0 <= from < to <= separator < encode_utf8(line).len(),
        is_bare(encode_utf8(line), 0, from) && !(language is Yaml && encode_utf8(line)[from] == 0x2d) || (language is Yaml
            && 0 <= dash && dash + 1 < from && is_bare(encode_utf8(line), 0, dash) && encode_utf8(line)[dash] == 0x2d
            && is_bare(encode_utf8(line), dash + 1, from)),
        forall|k: int| from <= k < to ==> in_key(#[trigger] encode_utf8(line)[k]),
        is_bare(encode_utf8(line), to, separator),
        language is Yaml ==> encode_utf8(line)[separator] == 0x3a && (separator + 1 == encode_utf8(line).len()
            || encode_utf8(line)[separator + 1] == 0x20 || encode_utf8(line)[separator + 1] == 0x09),
        !(language is Yaml) ==> encode_utf8(line)[separator] == 0x3d,
    ensures
        lexed(line, CarryView::Start, language).0.contains(
            (Token { kind: TokenKind::Key, start: from as usize, end: to as usize }),
        ),
{
    let bytes = encode_utf8(line);
    assert(in_key(bytes[from]));
    if is_bare(bytes, 0, from) && !(language is Yaml && bytes[from] == 0x2d) {
        lemma_blanks(bytes, 0, from);
    } else {
        lemma_blanks(bytes, 0, dash);
        lemma_blanks(bytes, dash + 1, from);
        assert(is_blank(bytes[dash + 1]));
    }
    assert(key_start(language, bytes) == from);
    lemma_run_end(bytes, from, |byte: u8| is_key_byte(byte));
    let stop = run_end(bytes, from, |byte: u8| is_key_byte(byte));
    if stop < to {
        assert(in_key(bytes[stop]));
    }
    if to < stop {
        assert(is_key_byte(bytes[to]));
        assert(bytes[to] == 0x20 || bytes[to] == 0x09 || to == separator);
    }
    lemma_blanks(bytes, to, separator);
    lemma_headed(line, CarryView::Start, language);
}

/// Blanks at the end of a line hold nothing.
proof fn lemma_rest_bare(language: Language, bytes: Seq<u8>, at: int, carry: CarryView)
    requires
        0 <= at <= bytes.len(),
        is_bare(bytes, at, bytes.len() as int),
    ensures
        scanned(language, bytes, at, carry) == (Seq::<Token>::empty(), carry),
    decreases bytes.len() - at,
{
    if at < bytes.len() {
        assert(bytes[at] == 0x20 || bytes[at] == 0x09);
        assert(found(language, bytes, at) is Nothing);
        lemma_rest_bare(language, bytes, at + 1, carry);
    }
}

/// Two less-than signs, the tag behind them bare or in quotes, and the end of the
/// line: what follows is a heredoc, which waits for that tag. A dash in front of the
/// tag lets it be indented.
pub proof fn a_heredoc_waits_for_its_tag(line: Seq<char>, at: int, from: int, to: int, dash: bool, quoted: bool)
    requires
        encode_utf8(line).len() <= usize::MAX,
        0 <= at,
        at + 2 < encode_utf8(line).len(),
        encode_utf8(line)[at] == 0x3c && encode_utf8(line)[at + 1] == 0x3c,
        at > 0 ==> encode_utf8(line)[at - 1] != 0x3c,
        encode_utf8(line)[at + 2] != 0x3c,
        is_outside(lexed(line, CarryView::Start, Language::Shell).0, at),
        no_heredoc_before(Language::Shell, encode_utf8(line), at),
        is_word(encode_utf8(line), from, to),
        to - from <= 16,
        dash == (encode_utf8(line)[at + 2] == 0x2d),
        at + 2 + (if dash {
            1int
        } else {
            0int
        }) + (if quoted {
            1int
        } else {
            0int
        }) <= from,
        is_bare(
            encode_utf8(line),
            at + 2 + (if dash {
                1int
            } else {
                0int
            }),
            from - (if quoted {
                1int
            } else {
                0int
            }),
        ),
        quoted ==> (encode_utf8(line)[from - 1] == 0x22 || encode_utf8(line)[from - 1] == 0x27) && to < encode_utf8(
            line,
        ).len() && encode_utf8(line)[to] == encode_utf8(line)[from - 1],
        is_bare(
            encode_utf8(line),
            to + (if quoted {
                1int
            } else {
                0int
            }),
            encode_utf8(line).len() as int,
        ),
    ensures
        lexed(line, CarryView::Start, Language::Shell).1 == CarryView::Heredoc(
            encode_utf8(line).subrange(from, to),
            dash,
        ),
{
    let bytes = encode_utf8(line);
    vstd::utf8::encode_utf8_valid_utf8(line);
    vstd::utf8::is_char_boundary_iff_not_is_continuation_byte(bytes, at);
    lemma_read(line, CarryView::Start, Language::Shell, at);
    let after = if dash {
        at + 3
    } else {
        at + 2
    };
    assert(in_word(bytes[from]));
    let spot = if quoted {
        from - 1
    } else {
        from
    };
    lemma_blanks(bytes, after, spot);
    assert(tag_start(bytes, at) == from);
    lemma_word(bytes, from, to);
    let end = if quoted {
        to + 1
    } else {
        to
    };
    let open = CarryView::Heredoc(bytes.subrange(from, to), dash);
    if !quoted && to < bytes.len() {
        assert(bytes[to] == 0x20 || bytes[to] == 0x09);
    }
    assert(found(Language::Shell, bytes, at) == FoundView::Tag(end, open));
    lemma_rest_bare(Language::Shell, bytes, end, open);
}

/// A heredoc is a string line by line, until a line is its tag and nothing else.
pub proof fn a_heredoc_ends_at_its_tag(line: Seq<char>, tag: Seq<u8>, dash: bool)
    requires
        line.len() > 0,
        encode_utf8(line).len() <= usize::MAX,
        !is_white(line.last()),
        dash ==> !is_white(line[0]),
    ensures
        encode_utf8(line) == tag ==> lexed(line, CarryView::Heredoc(tag, dash), Language::Shell) == (
            seq![Token { kind: TokenKind::Keyword, start: 0, end: encode_utf8(line).len() as usize }],
            CarryView::Start,
        ),
        encode_utf8(line) != tag ==> lexed(line, CarryView::Heredoc(tag, dash), Language::Shell) == (
            seq![Token { kind: TokenKind::String, start: 0, end: encode_utf8(line).len() as usize }],
            CarryView::Heredoc(tag, dash),
        ),
{
    vstd::utf8::encode_utf8_decode_utf8(line);
    if encode_utf8(line).len() == 0 {
        assert(encode_utf8(line) =~= encode_utf8(Seq::<char>::empty()));
        vstd::utf8::encode_utf8_decode_utf8(Seq::<char>::empty());
        assert(false);
    }
    assert(trimmed_end(line) == line);
    if dash {
        assert(trimmed_start(line) =~= line);
    }
}

/// A YAML value that is a bar or a greater-than sign is a keyword and leaves a block
/// open, which lines that are indented further belong to.
pub proof fn a_block_takes_what_is_indented_further(line: Seq<char>, state: CarryView, indent: u16, from: int)
    requires
        encode_utf8(line).len() <= usize::MAX,
        state == CarryView::BlockScalar(indent),
        0 <= from <= encode_utf8(line).len(),
        is_bare(encode_utf8(line), 0, from),
        from < encode_utf8(line).len() ==> encode_utf8(line)[from] != 0x20 && encode_utf8(line)[from] != 0x09,
    ensures
        from == encode_utf8(line).len() || from > indent ==> lexed(line, state, Language::Yaml).1 == state,
        from < encode_utf8(line).len() && from > indent ==> lexed(line, state, Language::Yaml).0 == seq![
            Token { kind: TokenKind::String, start: 0, end: encode_utf8(line).len() as usize },
        ],
        from < encode_utf8(line).len() && from <= indent ==> lexed(line, state, Language::Yaml) == lexed(
            line,
            CarryView::Start,
            Language::Yaml,
        ),
{
    let bytes = encode_utf8(line);
    lemma_blanks(bytes, 0, from);
    assert(head(Language::Yaml, state, bytes) == head(Language::Yaml, CarryView::Start, bytes));
}

/// The mark of a block, alone at the end of its line behind a blank, opens one as deep
/// as the line is indented.
pub proof fn a_block_is_as_deep_as_its_line(line: Seq<char>, from: int, indent: int, before: int)
    requires
        encode_utf8(line).len() <= usize::MAX,
        0 <= indent <= 0xffff,
        indent < from < encode_utf8(line).len(),
        is_bare(encode_utf8(line), 0, indent),
        encode_utf8(line)[indent] != 0x20 && encode_utf8(line)[indent] != 0x09,
        encode_utf8(line)[from] == 0x7c || encode_utf8(line)[from] == 0x3e,
        encode_utf8(line)[from - 1] == 0x20 || encode_utf8(line)[from - 1] == 0x09,
        is_bare(encode_utf8(line), from + 1, encode_utf8(line).len() as int) || ((encode_utf8(line)[from + 1] == 0x2b
            || encode_utf8(line)[from + 1] == 0x2d) && from + 1 < encode_utf8(line).len() && is_bare(
            encode_utf8(line),
            from + 2,
            encode_utf8(line).len() as int,
        )),
        is_outside(lexed(line, CarryView::Start, Language::Yaml).0, from),
        is_led(encode_utf8(line), from, before),
    ensures
        lexed(line, CarryView::Start, Language::Yaml).1 == CarryView::BlockScalar(indent as u16),
        lexed(line, CarryView::Start, Language::Yaml).0.contains(
            (Token { kind: TokenKind::Keyword, start: from as usize, end: encode_utf8(line).len() as usize }),
        ),
{
    let bytes = encode_utf8(line);
    let len = bytes.len() as int;
    vstd::utf8::encode_utf8_valid_utf8(line);
    vstd::utf8::is_char_boundary_iff_not_is_continuation_byte(bytes, from);
    lemma_led(Language::Yaml, CarryView::Start, bytes, from, before);
    lemma_read(line, CarryView::Start, Language::Yaml, from);
    lemma_blanks(bytes, 0, indent);
    if is_bare(bytes, from + 1, len) {
        if from + 1 < len {
            assert(bytes[from + 1] == 0x20 || bytes[from + 1] == 0x09);
        }
        lemma_blanks(bytes, from + 1, len);
    } else {
        lemma_blanks(bytes, from + 2, len);
    }
    let spans = scanned(Language::Yaml, bytes, from, CarryView::Start).0;
    assert(spans.contains(spans[0]));
}

/// A backslash at the end of a Dockerfile line goes on with the next one.
pub proof fn a_backslash_goes_on_with_the_next_line(line: Seq<char>, state: CarryView, from: int)
    requires
        encode_utf8(line).len() <= usize::MAX,
        state is Start || state is Continued,
        0 <= from < encode_utf8(line).len(),
        encode_utf8(line)[from] == 0x5c,
        is_bare(encode_utf8(line), from + 1, encode_utf8(line).len() as int),
        is_outside(lexed(line, state, Language::Dockerfile).0, from),
    ensures
        lexed(line, state, Language::Dockerfile).1 is Continued,
{
    let bytes = encode_utf8(line);
    vstd::utf8::encode_utf8_valid_utf8(line);
    vstd::utf8::is_char_boundary_iff_not_is_continuation_byte(bytes, from);
    lemma_run_end(bytes, 0, |byte: u8| is_blank(byte));
    lemma_read(line, state, Language::Dockerfile, from);
    lemma_blanks(bytes, from + 1, bytes.len() as int);
}

/// A format reads a line as if nothing came before it, where what came before is none
/// of its own: quotes and heredocs are carried by shells, three quotes by TOML, blocks
/// by YAML and instructions by Dockerfiles.
pub proof fn formats_carry_their_own(line: Seq<char>, state: CarryView, language: Language)
    requires
        state is Quote || state is Heredoc ==> !(language is Shell),
        state is Multiline ==> !(language is Toml),
        state is BlockScalar ==> !(language is Yaml),
        state is Continued ==> !(language is Dockerfile),
    ensures
        lexed(line, state, language) == lexed(line, CarryView::Start, language),
{
    let bytes = encode_utf8(line);
    assert(head(language, state, bytes) == head(language, CarryView::Start, bytes));
    assert(lead(language, state, bytes) == lead(language, CarryView::Start, bytes));
}

/// Plain text is one run, whatever came before.
pub proof fn plain_text_is_one_run(line: Seq<char>, state: CarryView)
    requires
        encode_utf8(line).len() > 0,
    ensures
        lexed(line, state, Language::Plain) == (
            seq![Token { kind: TokenKind::Plain, start: 0, end: encode_utf8(line).len() as usize }],
            CarryView::Start,
        ),
{
}

proof fn lemma_carried(bytes: Seq<u8>, at: int, quote: u8)
    requires
        0 <= at,
    ensures
        quote_stop(seq![quote] + bytes, at + 1, quote, quote == 0x22) == (match quote_stop(
            bytes,
            at,
            quote,
            quote == 0x22,
        ) {
            Some(end) => Some(end + 1),
            None => None,
        }),
    decreases left(bytes, at),
{
    let whole = seq![quote] + bytes;
    assert(whole.len() == bytes.len() + 1);
    if at < bytes.len() {
        assert(whole[at + 1] == bytes[at]);
        if quote == 0x22 && bytes[at] == 0x5c {
            if at + 1 < bytes.len() {
                assert(whole[at + 2] == bytes[at + 1]);
                lemma_carried(bytes, at + 1 + step(bytes, at + 1), quote);
            }
        } else if bytes[at] != quote {
            lemma_carried(bytes, at + step(bytes, at), quote);
        }
    }
}

proof fn lemma_prefixed(bytes: Seq<u8>, quote: u8)
    requires
        valid_utf8(bytes),
        quote < 0x80,
    ensures
        valid_utf8(seq![quote] + bytes),
{
    let whole = seq![quote] + bytes;
    assert(whole[0] == quote);
    assert(vstd::utf8::pop_first_scalar(whole) =~= bytes);
    assert(quote & 0x7f == quote) by (bit_vector)
        requires
            quote < 0x80,
    ;
    assert(vstd::utf8::valid_first_scalar(whole));
}

/// A line that a shell begins inside of a quote is read as if the quote stood right
/// before it: it is a string up to the quote that closes it, or all of it.
pub proof fn a_carried_quote_goes_on(line: Seq<char>, quote: u8, to: int)
    requires
        encode_utf8(line).len() <= usize::MAX,
        quote == 0x22 || quote == 0x27,
    ensures
        ({
            let bytes = encode_utf8(line);
            let whole = seq![quote] + bytes;
            let read = lexed(line, CarryView::Quote(quote), Language::Shell);
            &&& is_quoted(whole, 0, to + 1) ==> read.0.contains(
                (Token { kind: TokenKind::String, start: 0, end: to as usize }),
            )
            &&& stays_open(whole, 0, whole.len() as int) ==> read.1 == CarryView::Quote(quote) && (bytes.len() > 0
                ==> read.0 == seq![Token { kind: TokenKind::String, start: 0, end: bytes.len() as usize }])
        }),
{
    let bytes = encode_utf8(line);
    let whole = seq![quote] + bytes;
    vstd::utf8::encode_utf8_valid_utf8(line);
    lemma_prefixed(bytes, quote);
    assert(whole[0] == quote);
    lemma_quoted(whole, 0, to + 1);
    lemma_carried(bytes, 0, quote);
    let state = CarryView::Quote(quote);
    if is_quoted(whole, 0, to + 1) {
        let first = lead(Language::Shell, state, bytes);
        let spans = first + scanned(Language::Shell, bytes, open_from(first), CarryView::Start).0;
        lemma_tiled(spans, bytes.len() as int);
        assert(spans[0] == Token { kind: TokenKind::String, start: 0, end: to as usize });
        assert(spans.contains(spans[0]));
    }
}

/// A line that TOML begins between three quotes is a string up to the next three, or
/// all of it.
pub proof fn three_carried_quotes_go_on(line: Seq<char>, quote: u8, to: int)
    requires
        encode_utf8(line).len() <= usize::MAX,
        quote == 0x22 || quote == 0x27,
    ensures
        ({
            let bytes = encode_utf8(line);
            let read = lexed(line, CarryView::Multiline(quote), Language::Toml);
            &&& 3 <= to <= bytes.len() && bytes[to - 3] == quote && is_tripled(bytes, to - 3) && no_triple(
                bytes,
                quote,
                0,
                to - 3,
            ) ==> read.0.contains((Token { kind: TokenKind::String, start: 0, end: to as usize }))
            &&& no_triple(bytes, quote, 0, bytes.len() as int) ==> read.1 == CarryView::Multiline(quote) && (
            bytes.len() > 0 ==> read.0 == seq![
                Token { kind: TokenKind::String, start: 0, end: bytes.len() as usize },
            ])
        }),
{
    let bytes = encode_utf8(line);
    lemma_triple(bytes, 0, quote);
    let state = CarryView::Multiline(quote);
    if 3 <= to <= bytes.len() && bytes[to - 3] == quote && is_tripled(bytes, to - 3) && no_triple(
        bytes,
        quote,
        0,
        to - 3,
    ) {
        match triple_stop(bytes, 0, quote) {
            Some(end) => {
                assert(bytes[end - 3] == quote);
                assert(end == to);
            },
            None => {
                assert(false);
            },
        }
        let first = lead(Language::Toml, state, bytes);
        let spans = first + scanned(Language::Toml, bytes, open_from(first), CarryView::Start).0;
        lemma_tiled(spans, bytes.len() as int);
        assert(spans[0] == Token { kind: TokenKind::String, start: 0, end: to as usize });
        assert(spans.contains(spans[0]));
    }
    if no_triple(bytes, quote, 0, bytes.len() as int) {
        match triple_stop(bytes, 0, quote) {
            Some(end) => {
                assert(bytes[end - 3] == quote);
            },
            None => {},
        }
    }
}

/// What a token is called is what stands there.
pub open spec fn is_rightly_called(language: Language, state: CarryView, bytes: Seq<u8>, token: Token) -> bool {
    let from = token.start as int;
    let to = token.end as int;
    match token.kind {
        TokenKind::Plain => true,
        TokenKind::Comment => {
            &&& !(language is Json)
            &&& bytes[from] == 0x23 || (language is Conf && bytes[from] == 0x3b)
            &&& from > 0 ==> bytes[from - 1] == 0x20 || bytes[from - 1] == 0x09
            &&& to == bytes.len()
        },
        TokenKind::String => {
            ||| from == 0 && language is Shell && (state is Quote || state is Heredoc)
            ||| from == 0 && language is Toml && state is Multiline
            ||| from == 0 && language is Yaml && state is BlockScalar && to == bytes.len()
            ||| opens_quote(language, bytes[from]) && is_quoted(bytes, from, to)
            ||| opens_quote(language, bytes[from]) && to == bytes.len() && stays_open(bytes, from, to)
            ||| language is Toml && opens_quote(language, bytes[from]) && is_tripled(bytes, from) && (to == bytes.len()
                || (from + 6 <= to && bytes[to - 3] == bytes[from] && is_tripled(bytes, to - 3)))
        },
        TokenKind::Number => 0x30 <= bytes[from] <= 0x39 && starts_word(bytes, from),
        TokenKind::Variable => {
            ||| bytes[from] == 0x24 && (language is Shell || language is Dockerfile || language is Conf)
            ||| language is Yaml && (bytes[from] == 0x26 || bytes[from] == 0x2a) && is_word(bytes, from + 1, to)
        },
        TokenKind::Keyword => {
            ||| language is Shell && is_reserved(bytes.subrange(from, to)) && starts_word(bytes, from)
            ||| language is Shell && state is Heredoc && from == 0 && to == bytes.len()
            ||| language is Dockerfile && !(state is Continued) && is_bare(bytes, 0, from) && is_word(bytes, from, to)
            ||| language is Yaml && (bytes[from] == 0x7c || bytes[from] == 0x3e) && to == bytes.len()
        },
        TokenKind::Literal => is_value(language, bytes.subrange(from, to)) && starts_word(bytes, from),
        TokenKind::Key => {
            ||| language is Json && bytes[from] == 0x22 && is_quoted(bytes, from, to) && is_named(bytes, to)
            ||| (language is Toml || language is Conf) && is_bare(bytes, 0, from) && bytes[from] == 0x5b && bytes[to
                - 1] == 0x5d
            ||| (language is Toml || language is Conf || language is Yaml) && forall|k: int|
                from <= k < to ==> in_key(#[trigger] bytes[k])
        },
    }
}

#[verifier::spinoff_prover]
#[verifier::rlimit(60)]
proof fn lemma_found_called(language: Language, state: CarryView, bytes: Seq<u8>, at: int, token: Token)
    requires
        valid_utf8(bytes),
        bytes.len() <= usize::MAX,
        !(language is Plain),
        0 <= at < bytes.len(),
        is_char_boundary(bytes, at),
        token.start == at,
        match found(language, bytes, at) {
            FoundView::Span(kind, end) => token.kind == kind && token.end == end,
            FoundView::Open(kind, carry) => token.kind == kind && token.end == bytes.len(),
            _ => false,
        },
    ensures
        is_rightly_called(language, state, bytes, token),
{
    let to = token.end as int;
    lemma_found(language, bytes, at);
    if comment_starts(language, bytes, at) {
        assert(is_rightly_called(language, state, bytes, token));
    } else if opens_string(language, bytes[at]) {
        lemma_quoted(bytes, at, to);
        lemma_triple(bytes, at + 3, bytes[at]);
        lemma_named(bytes, to);
        assert(is_rightly_called(language, state, bytes, token));
    } else if variable_found(language, bytes, at) !is Nothing {
        lemma_run_end(bytes, at + 1, |byte: u8| is_word_byte(byte));
        if language is Yaml {
            assert(is_word(bytes, at + 1, to));
        }
        assert(is_rightly_called(language, state, bytes, token));
    } else if language is Shell && heredoc_found(bytes, at) !is Nothing {
        assert(false);
    } else if mark_found(language, bytes, at) !is Nothing {
        assert(is_rightly_called(language, state, bytes, token));
    } else {
        lemma_value(language, bytes.subrange(at, to));
        assert(starts_word(bytes, at));
        assert(is_rightly_called(language, state, bytes, token));
    }
}

proof fn lemma_scanned_called(language: Language, state: CarryView, bytes: Seq<u8>, at: int, carry: CarryView)
    requires
        valid_utf8(bytes),
        bytes.len() <= usize::MAX,
        !(language is Plain),
        0 <= at <= bytes.len(),
        is_char_boundary(bytes, at),
    ensures
        forall|i: int|
            0 <= i < scanned(language, bytes, at, carry).0.len() ==> is_rightly_called(
                language,
                state,
                bytes,
                #[trigger] scanned(language, bytes, at, carry).0[i],
            ),
    decreases bytes.len() - at,
{
    if at < bytes.len() {
        let spans = scanned(language, bytes, at, carry).0;
        lemma_found(language, bytes, at);
        lemma_step(bytes, at);
        match found(language, bytes, at) {
            FoundView::Nothing => {
                lemma_scanned_called(language, state, bytes, at + step(bytes, at), carry);
                assert(spans == scanned(language, bytes, at + step(bytes, at), carry).0);
            },
            FoundView::Span(kind, end) => {
                let token = Token { kind, start: at as usize, end: end as usize };
                lemma_found_called(language, state, bytes, at, token);
                let rest = scanned(language, bytes, end, carry).0;
                lemma_scanned_called(language, state, bytes, end, carry);
                assert forall|i: int| 0 <= i < spans.len() implies is_rightly_called(
                    language,
                    state,
                    bytes,
                    #[trigger] spans[i],
                ) by {
                    if i == 0 {
                        assert(spans[i] == token);
                    } else {
                        assert(spans[i] == rest[i - 1]);
                    }
                }
            },
            FoundView::Open(kind, open) => {
                let token = Token { kind, start: at as usize, end: bytes.len() as usize };
                lemma_found_called(language, state, bytes, at, token);
                assert(spans == seq![token]);
            },
            FoundView::Tag(end, open) => {
                lemma_scanned_called(language, state, bytes, end, open);
                assert(spans == scanned(language, bytes, end, open).0);
            },
        }
    }
}

proof fn lemma_lead_called(language: Language, state: CarryView, bytes: Seq<u8>)
    requires
        valid_utf8(bytes),
        bytes.len() <= usize::MAX,
        !(language is Plain),
    ensures
        lead(language, state, bytes).len() > 0 ==> is_rightly_called(
            language,
            state,
            bytes,
            lead(language, state, bytes)[0],
        ),
{
    let first = lead(language, state, bytes);
    lemma_head(language, state, bytes);
    lemma_run_end(bytes, 0, |byte: u8| is_blank(byte));
    lemma_run_end(bytes, after_blanks(bytes, 0) + 1, |byte: u8| is_blank(byte));
    let start = key_start(language, bytes);
    lemma_run_end(bytes, start, |byte: u8| is_word_byte(byte));
    lemma_run_end(bytes, start, |byte: u8| is_key_byte(byte));
    lemma_quote_stop(bytes, start + 1, 0x5d, false);
    if first.len() > 0 && first[0].kind is Keyword {
        assert(is_bare(bytes, 0, start));
        assert(is_word(bytes, start, word_stop(bytes, start)));
    }
}

/// Every token is called what it is: a comment begins with a comment sign and reaches
/// the end of its line, a string is quoted or goes on with the line before, a number
/// begins with a digit, and keywords, literals and keys are the words they are.
pub proof fn tokens_are_rightly_called(line: Seq<char>, state: CarryView, language: Language, i: int)
    requires
        encode_utf8(line).len() <= usize::MAX,
        0 <= i < lexed(line, state, language).0.len(),
    ensures
        language is Plain ==> lexed(line, state, language).0[i].kind is Plain,
        is_rightly_called(language, state, encode_utf8(line), lexed(line, state, language).0[i]),
{
    let bytes = encode_utf8(line);
    vstd::utf8::encode_utf8_valid_utf8(line);
    let tokens = lexed(line, state, language).0;
    if !(language is Plain) && swallowed(language, state, line, bytes) is None {
        let first = lead(language, state, bytes);
        lemma_lead(language, state, bytes);
        lemma_lead_called(language, state, bytes);
        let from = open_from(first);
        let rest = scanned(language, bytes, from, CarryView::Start).0;
        let spans = first + rest;
        lemma_scanned_called(language, state, bytes, from, CarryView::Start);
        lemma_tiled(spans, bytes.len() as int);
        if spans.contains(tokens[i]) {
            let j = choose|j: int| 0 <= j < spans.len() && spans[j] == tokens[i];
            if j < first.len() {
                assert(spans[j] == first[0]);
            } else {
                assert(spans[j] == rest[j - first.len()]);
            }
        }
    }
}

/// A token of kind comment begins with a number sign, or in a config file with a
/// semicolon, and reaches the end of its line.
pub proof fn comments_begin_with_a_comment_sign(line: Seq<char>, state: CarryView, language: Language, i: int)
    requires
        encode_utf8(line).len() <= usize::MAX,
        0 <= i < lexed(line, state, language).0.len(),
        lexed(line, state, language).0[i].kind is Comment,
    ensures
        ({
            let bytes = encode_utf8(line);
            let token = lexed(line, state, language).0[i];
            &&& bytes[token.start as int] == 0x23 || (language is Conf && bytes[token.start as int] == 0x3b)
            &&& token.end == bytes.len()
        }),
{
    tokens_are_rightly_called(line, state, language, i);
}

} // verus!
