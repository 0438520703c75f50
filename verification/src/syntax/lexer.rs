//! The lexers.
//!
//! One scanner serves every format. From left to right it asks what starts at an
//! offset: a comment, a string, an expansion, a number, a reserved word or a
//! literal. The formats differ in which of these they have, in what the head of a
//! line is, and in what a line may leave open.
use vstd::prelude::*;
use vstd::utf8::{encode_utf8, is_char_boundary, valid_utf8};

use crate::syntax::language::Language;
use crate::syntax::scan::{
    after_blanks, begins_word, byte_is, digit, has_byte, is_blank, is_digit, is_letter, is_word_byte, left,
    lemma_ascii_run, lemma_number_stop, lemma_quote_boundary, lemma_quote_stop, lemma_run_end, lemma_step, number,
    number_stop, quote_body, quote_stop, run_end, skip_spaces, step, word_boundary, word_byte, word_end, word_stop,
};
use crate::syntax::token::{
    closes, filled, filled_spans_tile_the_line, open_from, ordered, plain_run, tiled, tiles, Carry, CarryView, Heredoc,
    LineState, Runs, Token, TokenKind, TAG_LIMIT,
};

verus! {

/// What starts at an offset.
pub enum FoundView {
    /// Nothing of interest.
    Nothing,
    /// A span that ends inside the line.
    Span(TokenKind, int),
    /// A span to the end of the line, and what it leaves open.
    Open(TokenKind, CarryView),
    /// Text to pass over, and what the line leaves open because of it.
    Tag(int, CarryView),
}

/// An offset is at the start of the line or after a blank.
pub open spec fn after_break(bytes: Seq<u8>, at: int) -> bool {
    at == 0 || is_blank(bytes[at - 1])
}

/// A comment starts: `#`, and `;` where the format has it, at the start of the
/// line or after a blank.
pub open spec fn comment_starts(language: Language, bytes: Seq<u8>, at: int) -> bool {
    &&& !(language is Json)
    &&& bytes[at] == 0x23 || (language is Conf && bytes[at] == 0x3b)
    &&& after_break(bytes, at)
}

/// A byte opens a string.
pub open spec fn opens_string(language: Language, byte: u8) -> bool {
    byte == 0x22 || (byte == 0x27 && !(language is Json))
}

/// Three quotes in a row.
pub open spec fn is_triple(bytes: Seq<u8>, at: int, quote: u8) -> bool {
    byte_is(bytes, at, quote) && byte_is(bytes, at + 1, quote) && byte_is(bytes, at + 2, quote)
}

/// The offset after the three quotes that close a multi-line string.
pub open spec fn triple_stop(bytes: Seq<u8>, at: int, quote: u8) -> Option<int>
    decreases left(bytes, at),
{
    if at < 0 || at >= bytes.len() {
        None
    } else if is_triple(bytes, at, quote) {
        Some(at + 3)
    } else {
        triple_stop(bytes, at + 1, quote)
    }
}

/// The string that starts at an offset.
pub open spec fn string_found(language: Language, bytes: Seq<u8>, at: int) -> FoundView {
    let quote = bytes[at];
    if language is Toml && is_triple(bytes, at, quote) {
        match triple_stop(bytes, at + 3, quote) {
            Some(end) => FoundView::Span(TokenKind::String, end),
            None => FoundView::Open(TokenKind::String, CarryView::Multiline(quote)),
        }
    } else {
        match quote_stop(bytes, at + 1, quote, quote == 0x22) {
            Some(end) => if language is Json && byte_is(bytes, after_blanks(bytes, end), 0x3a) {
                FoundView::Span(TokenKind::Key, end)
            } else {
                FoundView::Span(TokenKind::String, end)
            },
            None => if language is Shell {
                FoundView::Open(TokenKind::String, CarryView::Quote(quote))
            } else {
                FoundView::Open(TokenKind::String, CarryView::Start)
            },
        }
    }
}

/// A word starts right after an offset.
pub open spec fn word_follows(bytes: Seq<u8>, at: int) -> bool {
    at + 1 < bytes.len() && is_word_byte(bytes[at + 1])
}

/// The expansion that starts at an offset.
pub open spec fn variable_found(language: Language, bytes: Seq<u8>, at: int) -> FoundView {
    if bytes[at] == 0x24 && (language is Shell || language is Dockerfile || language is Conf) {
        if byte_is(bytes, at + 1, 0x7b) {
            match quote_stop(bytes, at + 2, 0x7d, false) {
                Some(end) => FoundView::Span(TokenKind::Variable, end),
                None => FoundView::Span(TokenKind::Variable, bytes.len() as int),
            }
        } else if word_follows(bytes, at) {
            FoundView::Span(TokenKind::Variable, word_stop(bytes, at + 1))
        } else {
            FoundView::Nothing
        }
    } else if (bytes[at] == 0x26 || bytes[at] == 0x2a) && language is Yaml && after_break(bytes, at)
        && word_follows(bytes, at) {
        FoundView::Span(TokenKind::Variable, word_stop(bytes, at + 1))
    } else {
        FoundView::Nothing
    }
}

/// A word is one of these.
pub open spec fn among(word: Seq<u8>, words: Seq<Seq<char>>) -> bool {
    exists|i: int| 0 <= i < words.len() && word == encode_utf8(#[trigger] words[i])
}

/// The words that a shell reserves.
pub open spec fn shell_words() -> Seq<Seq<char>> {
    seq![
        "if"@, "then"@, "else"@, "elif"@, "fi"@, "for"@, "while"@, "until"@, "do"@, "done"@, "case"@, "esac"@,
        "in"@, "function"@, "return"@, "exit"@, "local"@, "export"@,
    ]
}

/// The literals that every format with literals has.
pub open spec fn literal_words() -> Seq<Seq<char>> {
    seq!["true"@, "false"@, "null"@]
}

/// The further literals of YAML and of config files.
pub open spec fn switch_words() -> Seq<Seq<char>> {
    seq!["yes"@, "no"@, "on"@, "off"@]
}

/// What kind of word a word is.
pub open spec fn word_kind(language: Language, word: Seq<u8>) -> TokenKind {
    if language is Shell && among(word, shell_words()) {
        TokenKind::Keyword
    } else if !(language is Shell) && !(language is Dockerfile) && among(word, literal_words()) {
        TokenKind::Literal
    } else if (language is Yaml || language is Conf) && among(word, switch_words()) {
        TokenKind::Literal
    } else {
        TokenKind::Plain
    }
}

/// The number or the reserved word that starts at an offset.
pub open spec fn word_found(language: Language, bytes: Seq<u8>, at: int) -> FoundView {
    if !begins_word(bytes, at) {
        FoundView::Nothing
    } else if is_digit(bytes[at]) {
        FoundView::Span(TokenKind::Number, number_stop(bytes, at))
    } else if is_word_byte(bytes[at]) {
        let kind = word_kind(language, bytes.subrange(at, word_stop(bytes, at)));
        if kind is Plain {
            FoundView::Nothing
        } else {
            FoundView::Span(kind, word_stop(bytes, at))
        }
    } else {
        FoundView::Nothing
    }
}

/// Where the tag of a heredoc starts, after the dash, the blanks and the quote.
pub open spec fn tag_start(bytes: Seq<u8>, at: int) -> int {
    let after = after_blanks(
        bytes,
        if byte_is(bytes, at + 2, 0x2d) {
            at + 3
        } else {
            at + 2
        },
    );
    if byte_is(bytes, after, 0x22) || byte_is(bytes, after, 0x27) {
        after + 1
    } else {
        after
    }
}

/// The heredoc operator that starts at an offset.
pub open spec fn heredoc_found(bytes: Seq<u8>, at: int) -> FoundView {
    if bytes[at] == 0x3c && byte_is(bytes, at + 1, 0x3c) && !byte_is(bytes, at + 2, 0x3c) && !(at > 0 && bytes[at
        - 1] == 0x3c) {
        let start = tag_start(bytes, at);
        let end = word_stop(bytes, start);
        if 1 <= end - start <= TAG_LIMIT {
            FoundView::Tag(
                if byte_is(bytes, end, 0x22) || byte_is(bytes, end, 0x27) {
                    end + 1
                } else {
                    end
                },
                CarryView::Heredoc(bytes.subrange(start, end), byte_is(bytes, at + 2, 0x2d)),
            )
        } else {
            FoundView::Nothing
        }
    } else {
        FoundView::Nothing
    }
}

/// Nothing but blanks from an offset on.
pub open spec fn ends_blank(bytes: Seq<u8>, at: int) -> bool {
    after_blanks(bytes, at) == bytes.len()
}

/// The indentation of a line, as far as a state can hold it.
pub open spec fn held_indent(bytes: Seq<u8>) -> u16 {
    if after_blanks(bytes, 0) <= u16::MAX {
        after_blanks(bytes, 0) as u16
    } else {
        u16::MAX
    }
}

/// The mark at the end of a line that leaves it open.
pub open spec fn mark_found(language: Language, bytes: Seq<u8>, at: int) -> FoundView {
    if language is Yaml && (bytes[at] == 0x7c || bytes[at] == 0x3e) && at > 0 && is_blank(bytes[at - 1])
        && ends_blank(
        bytes,
        if byte_is(bytes, at + 1, 0x2b) || byte_is(bytes, at + 1, 0x2d) {
            at + 2
        } else {
            at + 1
        },
    ) {
        FoundView::Open(TokenKind::Keyword, CarryView::BlockScalar(held_indent(bytes)))
    } else if language is Dockerfile && bytes[at] == 0x5c && ends_blank(bytes, at + 1) {
        FoundView::Open(TokenKind::Plain, CarryView::Continued)
    } else {
        FoundView::Nothing
    }
}

/// What starts at an offset.
pub open spec fn found(language: Language, bytes: Seq<u8>, at: int) -> FoundView {
    if comment_starts(language, bytes, at) {
        FoundView::Span(TokenKind::Comment, bytes.len() as int)
    } else if opens_string(language, bytes[at]) {
        string_found(language, bytes, at)
    } else if variable_found(language, bytes, at) !is Nothing {
        variable_found(language, bytes, at)
    } else if language is Shell && heredoc_found(bytes, at) !is Nothing {
        heredoc_found(bytes, at)
    } else if mark_found(language, bytes, at) !is Nothing {
        mark_found(language, bytes, at)
    } else {
        word_found(language, bytes, at)
    }
}

/// The spans from an offset on, and what the line leaves open.
pub open spec fn scanned(language: Language, bytes: Seq<u8>, at: int, carry: CarryView) -> (Seq<Token>, CarryView)
    decreases left(bytes, at),
{
    if at < 0 || at >= bytes.len() {
        (Seq::empty(), carry)
    } else {
        match found(language, bytes, at) {
            FoundView::Nothing => scanned(language, bytes, at + step(bytes, at), carry),
            FoundView::Open(kind, open) => (
                seq![Token { kind, start: at as usize, end: bytes.len() as usize }],
                open,
            ),
            FoundView::Span(kind, end) => if at < end {
                let rest = scanned(language, bytes, end, carry);
                (seq![Token { kind, start: at as usize, end: end as usize }] + rest.0, rest.1)
            } else {
                (Seq::empty(), carry)
            },
            FoundView::Tag(end, open) => if at < end {
                scanned(language, bytes, end, open)
            } else {
                (Seq::empty(), carry)
            },
        }
    }
}

/// A byte of a bare key.
pub open spec fn is_key_byte(byte: u8) -> bool {
    is_word_byte(byte) || byte == 0x2e || byte == 0x2d
}

/// Where the key of a line would start.
pub open spec fn key_start(language: Language, bytes: Seq<u8>) -> int {
    let first = after_blanks(bytes, 0);
    if language is Yaml && byte_is(bytes, first, 0x2d) && first + 1 < bytes.len() && is_blank(bytes[first + 1]) {
        after_blanks(bytes, first + 1)
    } else {
        first
    }
}

/// What stands after a bare key makes it one.
pub open spec fn separator_at(language: Language, bytes: Seq<u8>, at: int) -> bool {
    if language is Yaml {
        byte_is(bytes, at, 0x3a) && (at + 1 == bytes.len() || is_blank(bytes[at + 1]))
    } else {
        byte_is(bytes, at, 0x3d)
    }
}

/// The head of a line: an instruction, a section header or a key.
pub open spec fn head(language: Language, state: CarryView, bytes: Seq<u8>) -> Option<(TokenKind, int, int)> {
    let start = key_start(language, bytes);
    if language is Dockerfile {
        if !(state is Continued) && start < bytes.len() && is_letter(bytes[start]) {
            Some((TokenKind::Keyword, start, word_stop(bytes, start)))
        } else {
            None
        }
    } else if (language is Toml || language is Conf) && byte_is(bytes, start, 0x5b) {
        match quote_stop(bytes, start + 1, 0x5d, false) {
            Some(end) => Some((TokenKind::Key, start, end)),
            None => None,
        }
    } else if language is Yaml || language is Toml || language is Conf {
        let end = run_end(bytes, start, |byte: u8| is_key_byte(byte));
        if start < end && separator_at(language, bytes, after_blanks(bytes, end)) {
            Some((TokenKind::Key, start, end))
        } else {
            None
        }
    } else {
        None
    }
}

/// A byte that a line can carry as a quote.
pub open spec fn is_quote(byte: u8) -> bool {
    byte == 0x22 || byte == 0x27
}

/// The whole line belongs to what the line before left open, or closes it.
pub open spec fn swallowed(
    language: Language,
    state: CarryView,
    line: Seq<char>,
    bytes: Seq<u8>,
) -> Option<(TokenKind, CarryView)> {
    match state {
        CarryView::Quote(quote) if language is Shell && is_quote(quote) && quote_stop(
            bytes,
            0,
            quote,
            quote == 0x22,
        ) is None => Some(
            (TokenKind::String, state),
        ),
        CarryView::Heredoc(tag, dash) if language is Shell => if closes(line, tag, dash) {
            Some((TokenKind::Keyword, CarryView::Start))
        } else {
            Some((TokenKind::String, state))
        },
        CarryView::Multiline(quote) if language is Toml && is_quote(quote) && triple_stop(bytes, 0, quote) is None => Some(
            (TokenKind::String, state),
        ),
        CarryView::BlockScalar(indent) if language is Yaml && (ends_blank(bytes, 0) || after_blanks(bytes, 0)
            > indent) => Some((TokenKind::String, state)),
        _ => None,
    }
}

/// The span that starts the line, and where scanning goes on.
pub open spec fn lead(language: Language, state: CarryView, bytes: Seq<u8>) -> Seq<Token> {
    let closing = match state {
        CarryView::Quote(quote) if language is Shell && is_quote(quote) => quote_stop(bytes, 0, quote, quote == 0x22),
        CarryView::Multiline(quote) if language is Toml && is_quote(quote) => triple_stop(bytes, 0, quote),
        _ => None,
    };
    match closing {
        Some(end) => seq![Token { kind: TokenKind::String, start: 0, end: end as usize }],
        None => match head(language, state, bytes) {
            Some((kind, start, end)) => seq![Token { kind, start: start as usize, end: end as usize }],
            None => Seq::empty(),
        },
    }
}

/// The tokens of a line, and the state that it ends in.
pub open spec fn lexed(line: Seq<char>, state: CarryView, language: Language) -> (Seq<Token>, CarryView) {
    let bytes = encode_utf8(line);
    if language is Plain {
        (plain_run(0, bytes.len() as int), CarryView::Start)
    } else {
        match swallowed(language, state, line, bytes) {
            Some((kind, next)) => (
                if bytes.len() > 0 {
                    seq![Token { kind, start: 0, end: bytes.len() as usize }]
                } else {
                    Seq::empty()
                },
                next,
            ),
            None => {
                let first = lead(language, state, bytes);
                let rest = scanned(language, bytes, open_from(first), CarryView::Start);
                (tiled(first + rest.0, bytes.len() as int), rest.1)
            },
        }
    }
}

/// What starts at an offset, as the scanner gets it.
enum Found {
    Nothing,
    Span(TokenKind, usize),
    Open(TokenKind, Carry),
    Tag(usize, Carry),
}

impl View for Found {
    type V = FoundView;

    closed spec fn view(&self) -> FoundView {
        match *self {
            Found::Nothing => FoundView::Nothing,
            Found::Span(kind, end) => FoundView::Span(kind, end as int),
            Found::Open(kind, carry) => FoundView::Open(kind, LineState(carry)@),
            Found::Tag(end, carry) => FoundView::Tag(end as int, LineState(carry)@),
        }
    }
}

fn blank_before(bytes: &[u8], at: usize) -> (is: bool)
    requires
        at < bytes@.len(),
    ensures
        is == after_break(bytes@, at as int),
{
    at == 0 || bytes[at - 1] == 0x20 || bytes[at - 1] == 0x09
}

fn triple(bytes: &[u8], at: usize, quote: u8) -> (is: bool)
    requires
        at < bytes@.len(),
    ensures
        is == is_triple(bytes@, at as int, quote),
{
    let len: usize = bytes.len();
    len - at >= 3 && bytes[at] == quote && bytes[at + 1] == quote && bytes[at + 2] == quote
}

fn find_triple(bytes: &[u8], at: usize, quote: u8) -> (end: Option<usize>)
    ensures
        match end {
            Some(end) => triple_stop(bytes@, at as int, quote) == Some(end as int),
            None => triple_stop(bytes@, at as int, quote) is None,
        },
{
    let len: usize = bytes.len();
    let mut next: usize = at;
    while next < len
        invariant
            len == bytes@.len(),
            triple_stop(bytes@, next as int, quote) == triple_stop(bytes@, at as int, quote),
        decreases len - next,
    {
        if triple(bytes, next, quote) {
            return Some(next + 3);
        }
        next += 1;
    }
    None
}

fn find_string(language: Language, line: &str, bytes: &[u8], at: usize) -> (found: Found)
    requires
        bytes@ == encode_utf8(line@),
        at < bytes@.len(),
    ensures
        found@ == string_found(language, bytes@, at as int),
{
    let len: usize = bytes.len();
    let quote: u8 = bytes[at];
    if matches!(language, Language::Toml) && triple(bytes, at, quote) {
        return match find_triple(bytes, at + 3, quote) {
            Some(end) => Found::Span(TokenKind::String, end),
            None => Found::Open(TokenKind::String, Carry::Multiline(quote)),
        };
    }
    match quote_body(line, at + 1, quote, quote == 0x22) {
        Some(end) => {
            if matches!(language, Language::Json) && has_byte(bytes, skip_spaces(bytes, end), 0x3a) {
                Found::Span(TokenKind::Key, end)
            } else {
                Found::Span(TokenKind::String, end)
            }
        },
        None => {
            if matches!(language, Language::Shell) {
                Found::Open(TokenKind::String, Carry::Quote(quote))
            } else {
                Found::Open(TokenKind::String, Carry::Start)
            }
        },
    }
}

fn find_variable(language: Language, line: &str, bytes: &[u8], at: usize) -> (found: Found)
    requires
        bytes@ == encode_utf8(line@),
        at < bytes@.len(),
    ensures
        found@ == variable_found(language, bytes@, at as int),
{
    let len: usize = bytes.len();
    let byte: u8 = bytes[at];
    let follows = len - at > 1 && word_byte(bytes[at + 1]);
    if byte == 0x24 && matches!(language, Language::Shell | Language::Dockerfile | Language::Conf) {
        if has_byte(bytes, at + 1, 0x7b) {
            match quote_body(line, at + 2, 0x7d, false) {
                Some(end) => Found::Span(TokenKind::Variable, end),
                None => Found::Span(TokenKind::Variable, len),
            }
        } else if follows {
            Found::Span(TokenKind::Variable, word_end(bytes, at + 1))
        } else {
            Found::Nothing
        }
    } else if (byte == 0x26 || byte == 0x2a) && matches!(language, Language::Yaml) && blank_before(bytes, at) && follows {
        Found::Span(TokenKind::Variable, word_end(bytes, at + 1))
    } else {
        Found::Nothing
    }
}

/// Whether a stretch of bytes is one of some words.
fn is_among(bytes: &[u8], from: usize, to: usize, words: &Vec<&str>) -> (found: bool)
    requires
        from <= to <= bytes@.len(),
    ensures
        found == among(bytes@.subrange(from as int, to as int), Seq::new(words@.len(), |i: int| words@[i]@)),
{
    let ghost word = bytes@.subrange(from as int, to as int);
    let ghost all = Seq::new(words@.len(), |i: int| words@[i]@);
    let mut i: usize = 0;
    while i < words.len()
        invariant
            from <= to <= bytes@.len(),
            i <= words@.len(),
            word == bytes@.subrange(from as int, to as int),
            all == Seq::new(words@.len(), |i: int| words@[i]@),
            forall|k: int| 0 <= k < i ==> word != encode_utf8(#[trigger] all[k]),
        decreases words@.len() - i,
    {
        let candidate = words[i].as_bytes();
        if same_bytes(bytes, from, to, candidate) {
            assert(word == encode_utf8(all[i as int]));
            return true;
        }
        i += 1;
    }
    false
}

fn same_bytes(bytes: &[u8], from: usize, to: usize, other: &[u8]) -> (same: bool)
    requires
        from <= to <= bytes@.len(),
    ensures
        same == (bytes@.subrange(from as int, to as int) == other@),
{
    if other.len() != to - from {
        return false;
    }
    let mut i: usize = 0;
    while i < other.len()
        invariant
            from <= to <= bytes@.len(),
            other@.len() == to - from,
            i <= other@.len(),
            forall|k: int| 0 <= k < i ==> bytes@[from + k] == other@[k],
        decreases other@.len() - i,
    {
        if bytes[from + i] != other[i] {
            assert(bytes@.subrange(from as int, to as int)[i as int] != other@[i as int]);
            return false;
        }
        i += 1;
    }
    proof {
        assert(bytes@.subrange(from as int, to as int) =~= other@);
    }
    true
}

fn kind_of_word(language: Language, bytes: &[u8], from: usize, to: usize) -> (kind: TokenKind)
    requires
        from <= to <= bytes@.len(),
    ensures
        kind == word_kind(language, bytes@.subrange(from as int, to as int)),
{
    let shell = matches!(language, Language::Shell);
    if shell {
        let words: Vec<&str> = vec![
            "if", "then", "else", "elif", "fi", "for", "while", "until", "do", "done", "case", "esac",
            "in", "function", "return", "exit", "local", "export",
        ];
        assert(Seq::new(words@.len(), |i: int| words@[i]@) =~= shell_words());
        if is_among(bytes, from, to, &words) {
            return TokenKind::Keyword;
        }
    }
    if !shell && !matches!(language, Language::Dockerfile) {
        let words: Vec<&str> = vec!["true", "false", "null"];
        assert(Seq::new(words@.len(), |i: int| words@[i]@) =~= literal_words());
        if is_among(bytes, from, to, &words) {
            return TokenKind::Literal;
        }
    }
    if matches!(language, Language::Yaml | Language::Conf) {
        let words: Vec<&str> = vec!["yes", "no", "on", "off"];
        assert(Seq::new(words@.len(), |i: int| words@[i]@) =~= switch_words());
        if is_among(bytes, from, to, &words) {
            return TokenKind::Literal;
        }
    }
    TokenKind::Plain
}

fn find_word(language: Language, line: &str, bytes: &[u8], at: usize) -> (found: Found)
    requires
        bytes@ == encode_utf8(line@),
        at < bytes@.len(),
    ensures
        found@ == word_found(language, bytes@, at as int),
{
    if !word_boundary(bytes, at) {
        return Found::Nothing;
    }
    if digit(bytes[at]) {
        return Found::Span(TokenKind::Number, number(line, at));
    }
    if word_byte(bytes[at]) {
        let end: usize = word_end(bytes, at);
        proof {
            lemma_run_end(bytes@, at as int, |byte: u8| is_word_byte(byte));
        }
        let kind = kind_of_word(language, bytes, at, end);
        if !matches!(kind, TokenKind::Plain) {
            return Found::Span(kind, end);
        }
    }
    Found::Nothing
}

fn find_heredoc(bytes: &[u8], at: usize) -> (found: Found)
    requires
        at < bytes@.len(),
    ensures
        found@ == heredoc_found(bytes@, at as int),
{
    let len: usize = bytes.len();
    if bytes[at] != 0x3c || len - at < 2 || bytes[at + 1] != 0x3c || has_byte(bytes, at + 2, 0x3c) || (at > 0
        && bytes[at - 1] == 0x3c) {
        return Found::Nothing;
    }
    let dash = has_byte(bytes, at + 2, 0x2d);
    let after: usize = if dash { at + 3 } else { at + 2 };
    proof {
        lemma_run_end(bytes@, after as int, |byte: u8| is_blank(byte));
    }
    let mut start: usize = skip_spaces(bytes, after);
    if has_byte(bytes, start, 0x22) || has_byte(bytes, start, 0x27) {
        start += 1;
    }
    proof {
        lemma_run_end(bytes@, start as int, |byte: u8| is_word_byte(byte));
    }
    let end: usize = word_end(bytes, start);
    match Heredoc::of(bytes, start, end, dash) {
        Some(heredoc) => {
            let next: usize = if has_byte(bytes, end, 0x22) || has_byte(bytes, end, 0x27) { end + 1 } else { end };
            Found::Tag(next, Carry::Heredoc(heredoc))
        },
        None => Found::Nothing,
    }
}

fn held(bytes: &[u8]) -> (indent: u16)
    ensures
        indent == held_indent(bytes@),
{
    let indent: usize = skip_spaces(bytes, 0);
    if indent <= u16::MAX as usize {
        indent as u16
    } else {
        u16::MAX
    }
}

fn find_mark(language: Language, bytes: &[u8], at: usize) -> (found: Found)
    requires
        at < bytes@.len(),
    ensures
        found@ == mark_found(language, bytes@, at as int),
{
    let len: usize = bytes.len();
    let byte: u8 = bytes[at];
    if matches!(language, Language::Yaml) && (byte == 0x7c || byte == 0x3e) && at > 0 && (bytes[at - 1] == 0x20
        || bytes[at - 1] == 0x09) {
        let after: usize = if has_byte(bytes, at + 1, 0x2b) || has_byte(bytes, at + 1, 0x2d) {
            at + 2
        } else {
            at + 1
        };
        if skip_spaces(bytes, after) == len {
            return Found::Open(TokenKind::Keyword, Carry::BlockScalar(held(bytes)));
        }
    }
    if matches!(language, Language::Dockerfile) && byte == 0x5c && skip_spaces(bytes, at + 1) == len {
        return Found::Open(TokenKind::Plain, Carry::Continued);
    }
    Found::Nothing
}

fn find(language: Language, line: &str, bytes: &[u8], at: usize) -> (what: Found)
    requires
        bytes@ == encode_utf8(line@),
        at < bytes@.len(),
    ensures
        what@ == found(language, bytes@, at as int),
{
    let byte: u8 = bytes[at];
    if !matches!(language, Language::Json) && (byte == 0x23 || (matches!(language, Language::Conf) && byte == 0x3b))
        && blank_before(bytes, at) {
        return Found::Span(TokenKind::Comment, bytes.len());
    }
    if byte == 0x22 || (byte == 0x27 && !matches!(language, Language::Json)) {
        return find_string(language, line, bytes, at);
    }
    let variable = find_variable(language, line, bytes, at);
    if !matches!(variable, Found::Nothing) {
        return variable;
    }
    if matches!(language, Language::Shell) {
        let heredoc = find_heredoc(bytes, at);
        if !matches!(heredoc, Found::Nothing) {
            return heredoc;
        }
    }
    let mark = find_mark(language, bytes, at);
    if !matches!(mark, Found::Nothing) {
        return mark;
    }
    find_word(language, line, bytes, at)
}

/// The head of a line.
fn find_head(language: Language, state: LineState, line: &str, bytes: &[u8]) -> (found: Option<(TokenKind, usize, usize)>)
    requires
        bytes@ == encode_utf8(line@),
    ensures
        match found {
            Some((kind, start, end)) => head(language, state@, bytes@) == Some((kind, start as int, end as int)),
            None => head(language, state@, bytes@) is None,
        },
{
    let len: usize = bytes.len();
    let ghost all = bytes@;
    proof {
        lemma_run_end(all, 0, |byte: u8| is_blank(byte));
    }
    let first: usize = skip_spaces(bytes, 0);
    let start: usize = if matches!(language, Language::Yaml) && has_byte(bytes, first, 0x2d) && len - first > 1 && (
    bytes[first + 1] == 0x20 || bytes[first + 1] == 0x09) {
        skip_spaces(bytes, first + 1)
    } else {
        first
    };
    proof {
        lemma_run_end(all, first + 1, |byte: u8| is_blank(byte));
    }
    if matches!(language, Language::Dockerfile) {
        if !matches!(state.0, Carry::Continued) && start < len && ((0x41 <= bytes[start] && bytes[start] <= 0x5a) || (
        0x61 <= bytes[start] && bytes[start] <= 0x7a)) {
            return Some((TokenKind::Keyword, start, word_end(bytes, start)));
        }
        return None;
    }
    if matches!(language, Language::Toml | Language::Conf) && has_byte(bytes, start, 0x5b) {
        return match quote_body(line, start + 1, 0x5d, false) {
            Some(end) => Some((TokenKind::Key, start, end)),
            None => None,
        };
    }
    if matches!(language, Language::Yaml | Language::Toml | Language::Conf) {
        let end: usize = key_end(bytes, start);
        proof {
            lemma_run_end(all, start as int, |byte: u8| is_key_byte(byte));
            lemma_run_end(all, end as int, |byte: u8| is_blank(byte));
        }
        let separator: usize = skip_spaces(bytes, end);
        let separates = if matches!(language, Language::Yaml) {
            has_byte(bytes, separator, 0x3a) && (separator + 1 == len || bytes[separator + 1] == 0x20
                || bytes[separator + 1] == 0x09)
        } else {
            has_byte(bytes, separator, 0x3d)
        };
        if start < end && separates {
            return Some((TokenKind::Key, start, end));
        }
    }
    None
}

/// The end of the bare key starting at `at`.
fn key_end(bytes: &[u8], at: usize) -> (end: usize)
    ensures
        end == run_end(bytes@, at as int, |byte: u8| is_key_byte(byte)),
{
    let mut end: usize = at;
    while end < bytes.len() && (word_byte(bytes[end]) || bytes[end] == 0x2e || bytes[end] == 0x2d)
        invariant
            at <= end,
            run_end(bytes@, at as int, |byte: u8| is_key_byte(byte)) == run_end(
                bytes@,
                end as int,
                |byte: u8| is_key_byte(byte),
            ),
        decreases bytes@.len() - end,
    {
        end += 1;
    }
    end
}

/// Whether the whole line belongs to what the line before left open.
fn find_swallowed(language: Language, state: LineState, line: &str, bytes: &[u8]) -> (whole: Option<(TokenKind, Carry)>)
    requires
        bytes@ == encode_utf8(line@),
    ensures
        match whole {
            Some((kind, carry)) => swallowed(language, state@, line@, bytes@) == Some((kind, LineState(carry)@)),
            None => swallowed(language, state@, line@, bytes@) is None,
        },
{
    match state.0 {
        Carry::Quote(quote) => {
            if matches!(language, Language::Shell) && (quote == 0x22 || quote == 0x27) && quote_body(
                line,
                0,
                quote,
                quote == 0x22,
            ).is_none() {
                return Some((TokenKind::String, state.0));
            }
        },
        Carry::Heredoc(heredoc) => {
            if matches!(language, Language::Shell) {
                return if heredoc.terminates(line) {
                    Some((TokenKind::Keyword, Carry::Start))
                } else {
                    Some((TokenKind::String, state.0))
                };
            }
        },
        Carry::Multiline(quote) => {
            if matches!(language, Language::Toml) && (quote == 0x22 || quote == 0x27) && find_triple(
                bytes,
                0,
                quote,
            ).is_none() {
                return Some((TokenKind::String, state.0));
            }
        },
        Carry::BlockScalar(indent) => {
            let own: usize = skip_spaces(bytes, 0);
            if matches!(language, Language::Yaml) && (own == bytes.len() || own > indent as usize) {
                return Some((TokenKind::String, state.0));
            }
        },
        _ => {},
    }
    None
}

/// The span that starts the line.
fn find_lead(language: Language, state: LineState, line: &str, bytes: &[u8]) -> (first: Option<Token>)
    requires
        bytes@ == encode_utf8(line@),
    ensures
        match first {
            Some(token) => lead(language, state@, bytes@) == seq![token],
            None => lead(language, state@, bytes@) == Seq::<Token>::empty(),
        },
{
    let closing = match state.0 {
        Carry::Quote(quote) => if matches!(language, Language::Shell) && (quote == 0x22 || quote == 0x27) {
            quote_body(line, 0, quote, quote == 0x22)
        } else {
            None
        },
        Carry::Multiline(quote) => if matches!(language, Language::Toml) && (quote == 0x22 || quote == 0x27) {
            find_triple(bytes, 0, quote)
        } else {
            None
        },
        _ => None,
    };
    match closing {
        Some(end) => Some(Token { kind: TokenKind::String, start: 0, end }),
        None => match find_head(language, state, line, bytes) {
            Some((kind, start, end)) => Some(Token { kind, start, end }),
            None => None,
        },
    }
}

/// The tokens of `line`, given the state the line before it ended in.
///
/// Offsets in the tokens are relative to the start of `line`, which must not
/// contain the line break.
pub fn lex_line(line: &str, state: LineState, language: Language) -> (lexed: (Vec<Token>, LineState))
    ensures
        lexed.0@ == self::lexed(line@, state@, language).0,
        lexed.1@ == self::lexed(line@, state@, language).1,
        lexed.1.is_sound(),
        tiles(lexed.0@, 0, encode_utf8(line@).len() as int),
{
    let bytes = line.as_bytes();
    let len: usize = bytes.len();
    let ghost all = bytes@;
    proof {
        vstd::utf8::encode_utf8_valid_utf8(line@);
        tokens_tile_the_line(line@, state@, language);
    }
    if matches!(language, Language::Plain) {
        return (plain(line), LineState::start());
    }
    if let Some((kind, carry)) = find_swallowed(language, state, line, bytes) {
        let mut tokens: Vec<Token> = Vec::new();
        if len > 0 {
            tokens.push(Token { kind, start: 0, end: len });
        }
        assert(tokens@ =~= self::lexed(line@, state@, language).0);
        return (tokens, LineState::carrying(carry));
    }
    let ghost first = lead(language, state@, all);
    let ghost rest = scanned(language, all, open_from(first), CarryView::Start);
    let ghost mut done = first;
    let mut runs = Runs::new();
    let mut at: usize = 0;
    proof {
        lemma_lead(language, state@, all);
    }
    if let Some(token) = find_lead(language, state, line, bytes) {
        runs.push(token.kind, token.start, token.end);
        at = token.end;
        proof {
            reveal_with_fuel(filled, 2);
            assert(first.drop_last() =~= Seq::<Token>::empty());
            assert(runs.tokens@ =~= filled(first));
        }
    }
    let mut carry = Carry::Start;
    proof {
        assert(done + rest.0 =~= first + rest.0);
    }
    while at < len
        invariant
            at <= len,
            len == all.len(),
            all == bytes@,
            all == encode_utf8(line@),
            valid_utf8(all),
            ordered(done, len as int),
            open_from(done) <= at,
            is_char_boundary(all, at as int),
            runs.tokens@ == filled(done),
            runs.plain_from == open_from(done),
            done + scanned(language, all, at as int, LineState(carry)@).0 == first + rest.0,
            scanned(language, all, at as int, LineState(carry)@).1 == rest.1,
        decreases len - at,
    {
        proof {
            lemma_found(language, all, at as int);
            lemma_step(all, at as int);
        }
        let ghost before = done;
        match find(language, line, bytes, at) {
            Found::Nothing => {
                at = at + char_width(line, at);
            },
            Found::Span(kind, end) => {
                runs.push(kind, at, end);
                proof {
                    let token = Token { kind, start: at, end };
                    done = before.push(token);
                    assert(done.drop_last() =~= before);
                    assert(runs.tokens@ =~= filled(done));
                    let later = scanned(language, all, end as int, LineState(carry)@).0;
                    assert(before + (seq![token] + later) =~= done + later);
                }
                at = end;
            },
            Found::Open(kind, open) => {
                runs.push(kind, at, len);
                carry = open;
                proof {
                    let token = Token { kind, start: at, end: len };
                    done = before.push(token);
                    assert(done.drop_last() =~= before);
                    assert(runs.tokens@ =~= filled(done));
                    assert(before + seq![token] =~= done + Seq::<Token>::empty());
                    vstd::utf8::is_char_boundary_start_end_of_seq(all);
                }
                at = len;
            },
            Found::Tag(end, open) => {
                carry = open;
                at = end;
            },
        }
    }
    proof {
        assert(done + Seq::<Token>::empty() =~= done);
    }
    (runs.finish(len), LineState::carrying(carry))
}

/// How many bytes the character at `at` takes.
fn char_width(line: &str, at: usize) -> (width: usize)
    requires
        at < encode_utf8(line@).len(),
    ensures
        width == step(encode_utf8(line@), at as int),
        1 <= width <= 4,
{
    crate::syntax::scan::char_step(line, at)
}

/// One run over the whole line.
fn plain(line: &str) -> (tokens: Vec<Token>)
    ensures
        tokens@ == plain_run(0, encode_utf8(line@).len() as int),
{
    let mut tokens: Vec<Token> = Vec::new();
    let len: usize = line.as_bytes().len();
    if len > 0 {
        tokens.push(Token { kind: TokenKind::Plain, start: 0, end: len });
    }
    assert(tokens@ =~= plain_run(0, len as int));
    tokens
}

proof fn lemma_triple_stop(bytes: Seq<u8>, at: int, quote: u8)
    requires
        0 <= at,
    ensures
        match triple_stop(bytes, at, quote) {
            Some(end) => at < end <= bytes.len() && (valid_utf8(bytes) && quote < 0x80 ==> is_char_boundary(
                bytes,
                end,
            )),
            None => true,
        },
    decreases left(bytes, at),
{
    if at < bytes.len() {
        if is_triple(bytes, at, quote) {
            if valid_utf8(bytes) && quote < 0x80 {
                vstd::utf8::is_char_boundary_iff_not_is_continuation_byte(bytes, at + 2);
                lemma_step(bytes, at + 2);
            }
        } else {
            lemma_triple_stop(bytes, at + 1, quote);
        }
    }
}

/// What starts at a character boundary ends at one, further on.
pub(crate) proof fn lemma_found(language: Language, bytes: Seq<u8>, at: int)
    requires
        valid_utf8(bytes),
        0 <= at < bytes.len(),
        is_char_boundary(bytes, at),
    ensures
        match found(language, bytes, at) {
            FoundView::Span(kind, end) => at < end <= bytes.len() && is_char_boundary(bytes, end),
            FoundView::Tag(end, carry) => at < end <= bytes.len() && is_char_boundary(bytes, end),
            _ => true,
        },
{
    vstd::utf8::is_char_boundary_start_end_of_seq(bytes);
    lemma_step(bytes, at);
    if comment_starts(language, bytes, at) {
    } else if opens_string(language, bytes[at]) {
        lemma_triple_stop(bytes, at + 3, bytes[at]);
        lemma_quote_stop(bytes, at + 1, bytes[at], bytes[at] == 0x22);
        lemma_quote_boundary(bytes, at + 1, bytes[at], bytes[at] == 0x22);
    } else if variable_found(language, bytes, at) !is Nothing {
        if byte_is(bytes, at + 1, 0x7b) {
            lemma_step(bytes, at + 1);
            lemma_quote_stop(bytes, at + 2, 0x7d, false);
            lemma_quote_boundary(bytes, at + 2, 0x7d, false);
        }
        lemma_run_end(bytes, at + 1, |byte: u8| is_word_byte(byte));
        if word_follows(bytes, at) {
            lemma_ascii_run(bytes, at + 1, word_stop(bytes, at + 1));
        }
    } else if language is Shell && heredoc_found(bytes, at) !is Nothing {
        let after = if byte_is(bytes, at + 2, 0x2d) {
            at + 3
        } else {
            at + 2
        };
        lemma_run_end(bytes, after, |byte: u8| is_blank(byte));
        let start = tag_start(bytes, at);
        lemma_run_end(bytes, start, |byte: u8| is_word_byte(byte));
        let end = word_stop(bytes, start);
        let next = if byte_is(bytes, end, 0x22) || byte_is(bytes, end, 0x27) {
            end + 1
        } else {
            end
        };
        lemma_ascii_run(bytes, at, next);
    } else if mark_found(language, bytes, at) !is Nothing {
    } else {
        lemma_number_stop(bytes, at);
        lemma_run_end(bytes, at, |byte: u8| is_word_byte(byte));
        if is_digit(bytes[at]) {
            lemma_ascii_run(bytes, at, number_stop(bytes, at));
        }
        lemma_ascii_run(bytes, at, word_stop(bytes, at));
    }
}

/// The spans start and end at character boundaries.
pub open spec fn on_boundaries(spans: Seq<Token>, bytes: Seq<u8>) -> bool {
    forall|i: int|
        0 <= i < spans.len() ==> is_char_boundary(bytes, (#[trigger] spans[i]).start as int) && is_char_boundary(
            bytes,
            spans[i].end as int,
        )
}

/// The span that starts a line lies inside it, between character boundaries.
pub(crate) proof fn lemma_lead(language: Language, state: CarryView, bytes: Seq<u8>)
    requires
        valid_utf8(bytes),
        bytes.len() <= usize::MAX,
    ensures
        ordered(lead(language, state, bytes), bytes.len() as int),
        open_from(lead(language, state, bytes)) <= bytes.len(),
        on_boundaries(lead(language, state, bytes), bytes),
        is_char_boundary(bytes, open_from(lead(language, state, bytes))),
{
    vstd::utf8::is_char_boundary_start_end_of_seq(bytes);
    let first = lead(language, state, bytes);
    match state {
        CarryView::Quote(quote) => {
            lemma_quote_stop(bytes, 0, quote, quote == 0x22);
            if is_quote(quote) {
                lemma_quote_boundary(bytes, 0, quote, quote == 0x22);
            }
        },
        CarryView::Multiline(quote) => {
            lemma_triple_stop(bytes, 0, quote);
        },
        _ => {},
    }
    lemma_head(language, state, bytes);
    if first.len() > 0 {
        reveal_with_fuel(ordered, 2);
        assert(first.drop_last() =~= Seq::<Token>::empty());
        assert(first.last() == first[0]);
    }
}

pub(crate) proof fn lemma_head(language: Language, state: CarryView, bytes: Seq<u8>)
    requires
        valid_utf8(bytes),
    ensures
        match head(language, state, bytes) {
            Some((kind, start, end)) => 0 <= start < end <= bytes.len() && is_char_boundary(bytes, start)
                && is_char_boundary(bytes, end),
            None => true,
        },
{
    vstd::utf8::is_char_boundary_start_end_of_seq(bytes);
    let first = after_blanks(bytes, 0);
    lemma_run_end(bytes, 0, |byte: u8| is_blank(byte));
    lemma_run_end(bytes, first + 1, |byte: u8| is_blank(byte));
    let start = key_start(language, bytes);
    lemma_ascii_run(bytes, 0, start);
    lemma_run_end(bytes, start, |byte: u8| is_word_byte(byte));
    lemma_run_end(bytes, start, |byte: u8| is_key_byte(byte));
    lemma_ascii_run(bytes, start, word_stop(bytes, start));
    lemma_ascii_run(bytes, start, run_end(bytes, start, |byte: u8| is_key_byte(byte)));
    if byte_is(bytes, start, 0x5b) {
        lemma_step(bytes, start);
        lemma_quote_stop(bytes, start + 1, 0x5d, false);
        lemma_quote_boundary(bytes, start + 1, 0x5d, false);
    }
}

/// Scanning on from a character boundary keeps spans in order and on boundaries.
proof fn lemma_scanned(language: Language, bytes: Seq<u8>, at: int, carry: CarryView, done: Seq<Token>)
    requires
        valid_utf8(bytes),
        bytes.len() <= usize::MAX,
        0 <= at <= bytes.len(),
        is_char_boundary(bytes, at),
        ordered(done, bytes.len() as int),
        open_from(done) <= at,
        on_boundaries(done, bytes),
    ensures
        ordered(done + scanned(language, bytes, at, carry).0, bytes.len() as int),
        on_boundaries(done + scanned(language, bytes, at, carry).0, bytes),
        !language.can_carry() && carry is Start ==> scanned(language, bytes, at, carry).1 is Start,
    decreases left(bytes, at),
{
    if at >= bytes.len() {
        assert(done + Seq::<Token>::empty() =~= done);
    } else {
        lemma_found(language, bytes, at);
        lemma_step(bytes, at);
        match found(language, bytes, at) {
            FoundView::Nothing => {
                lemma_scanned(language, bytes, at + step(bytes, at), carry, done);
            },
            FoundView::Span(kind, end) => {
                let token = Token { kind, start: at as usize, end: end as usize };
                let more = done.push(token);
                assert(more.drop_last() =~= done);
                lemma_scanned(language, bytes, end, carry, more);
                let rest = scanned(language, bytes, end, carry).0;
                assert(done + (seq![token] + rest) =~= more + rest);
            },
            FoundView::Open(kind, open) => {
                let token = Token { kind, start: at as usize, end: bytes.len() as usize };
                let more = done.push(token);
                assert(more.drop_last() =~= done);
                assert(done + seq![token] =~= more);
                vstd::utf8::is_char_boundary_start_end_of_seq(bytes);
            },
            FoundView::Tag(end, open) => {
                lemma_scanned(language, bytes, end, open, done);
            },
        }
    }
}

proof fn lemma_filled_boundaries(spans: Seq<Token>, bytes: Seq<u8>, len: int)
    requires
        valid_utf8(bytes),
        len <= usize::MAX,
        ordered(spans, len),
        on_boundaries(spans, bytes),
    ensures
        on_boundaries(filled(spans), bytes),
        is_char_boundary(bytes, open_from(spans)),
        0 <= open_from(spans),
    decreases spans.len(),
{
    vstd::utf8::is_char_boundary_start_end_of_seq(bytes);
    if spans.len() > 0 {
        let before = spans.drop_last();
        assert(on_boundaries(before, bytes)) by {
            assert forall|i: int| 0 <= i < before.len() implies is_char_boundary(
                bytes,
                (#[trigger] before[i]).start as int,
            ) && is_char_boundary(bytes, before[i].end as int) by {
                assert(before[i] == spans[i]);
            }
        }
        lemma_filled_boundaries(before, bytes, len);
        assert(spans[spans.len() - 1] == spans.last());
        let tokens = filled(spans);
        let gap = plain_run(open_from(before), spans.last().start as int);
        assert forall|i: int| 0 <= i < tokens.len() implies is_char_boundary(
            bytes,
            (#[trigger] tokens[i]).start as int,
        ) && is_char_boundary(bytes, tokens[i].end as int) by {
            if i < filled(before).len() {
                assert(tokens[i] == filled(before)[i]);
            } else if i < filled(before).len() + gap.len() {
                assert(tokens[i] == gap[0]);
            } else {
                assert(tokens[i] == spans.last());
            }
        }
    }
}

/// The tokens of a line cover it in order, without gaps and without overlaps, and
/// every boundary is a character boundary, whatever the line and whatever the
/// state. A format that carries nothing hands nothing on.
pub proof fn tokens_tile_the_line(line: Seq<char>, state: CarryView, language: Language)
    requires
        encode_utf8(line).len() <= usize::MAX,
    ensures
        tiles(lexed(line, state, language).0, 0, encode_utf8(line).len() as int),
        on_boundaries(lexed(line, state, language).0, encode_utf8(line)),
        !language.can_carry() ==> lexed(line, state, language).1 is Start,
{
    let bytes = encode_utf8(line);
    let len = bytes.len() as int;
    vstd::utf8::encode_utf8_valid_utf8(line);
    vstd::utf8::is_char_boundary_start_end_of_seq(bytes);
    let tokens = lexed(line, state, language).0;
    if language is Plain || swallowed(language, state, line, bytes) is Some {
        reveal_with_fuel(tiles, 2);
        if tokens.len() > 0 {
            assert(tokens.drop_last() =~= Seq::<Token>::empty());
        }
    } else {
        let first = lead(language, state, bytes);
        lemma_lead(language, state, bytes);
        lemma_scanned(language, bytes, open_from(first), CarryView::Start, first);
        let spans = first + scanned(language, bytes, open_from(first), CarryView::Start).0;
        filled_spans_tile_the_line(spans, len);
        lemma_filled_boundaries(spans, bytes, len);
        let gap = plain_run(open_from(spans), len);
        assert forall|i: int| 0 <= i < tokens.len() implies is_char_boundary(
            bytes,
            (#[trigger] tokens[i]).start as int,
        ) && is_char_boundary(bytes, tokens[i].end as int) by {
            if i < filled(spans).len() {
                assert(tokens[i] == filled(spans)[i]);
            } else {
                assert(tokens[i] == gap[0]);
            }
        }
    }
}

/// The state that several lines end in.
pub open spec fn state_after(lines: Seq<Seq<char>>, state: CarryView, language: Language) -> CarryView
    decreases lines.len(),
{
    if lines.len() == 0 {
        state
    } else {
        lexed(lines.last(), state_after(lines.drop_last(), state, language), language).1
    }
}

/// A state after steps.
spec fn folded(lines: Seq<Seq<char>>, state: CarryView, step: spec_fn(Seq<char>, CarryView) -> CarryView) -> CarryView
    decreases lines.len(),
{
    if lines.len() == 0 {
        state
    } else {
        step(lines.last(), folded(lines.drop_last(), state, step))
    }
}

/// The state after all lines is the one that the rest leaves the first in.
proof fn lemma_folded(
    first: Seq<Seq<char>>,
    rest: Seq<Seq<char>>,
    state: CarryView,
    step: spec_fn(Seq<char>, CarryView) -> CarryView,
)
    ensures
        folded(first + rest, state, step) == folded(rest, folded(first, state, step), step),
    decreases rest.len(),
{
    if rest.len() == 0 {
        assert(first + rest =~= first);
    } else {
        assert((first + rest).drop_last() =~= first + rest.drop_last());
        assert((first + rest).last() == rest.last());
        lemma_folded(first, rest.drop_last(), state, step);
    }
}

#[verifier::spinoff_prover]
proof fn lemma_state_after(lines: Seq<Seq<char>>, state: CarryView, language: Language)
    ensures
        state_after(lines, state, language) == folded(
            lines,
            state,
            |line: Seq<char>, before: CarryView| lexed(line, before, language).1,
        ),
    decreases lines.len(),
{
    if lines.len() > 0 {
        lemma_state_after(lines.drop_last(), state, language);
    }
}

/// After an edit, lexing again can stop where the state settles: lines that follow
/// two texts ending in the same state have the same tokens and end in the same
/// states, whatever came before.
#[verifier::spinoff_prover]
pub proof fn lexing_again_stops_where_the_state_settles(
    before: Seq<Seq<char>>,
    after: Seq<Seq<char>>,
    rest: Seq<Seq<char>>,
    line: Seq<char>,
    language: Language,
)
    requires
        state_after(before, CarryView::Start, language) == state_after(after, CarryView::Start, language),
    ensures
        state_after(before + rest, CarryView::Start, language) == state_after(
            after + rest,
            CarryView::Start,
            language,
        ),
        lexed(line, state_after(before + rest, CarryView::Start, language), language) == lexed(
            line,
            state_after(after + rest, CarryView::Start, language),
            language,
        ),
{
    let step = |line: Seq<char>, before: CarryView| lexed(line, before, language).1;
    lemma_state_after(before, CarryView::Start, language);
    lemma_state_after(after, CarryView::Start, language);
    lemma_state_after(before + rest, CarryView::Start, language);
    lemma_state_after(after + rest, CarryView::Start, language);
    lemma_folded(before, rest, CarryView::Start, step);
    lemma_folded(after, rest, CarryView::Start, step);
}

} // verus!
