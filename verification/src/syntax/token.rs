//! Tokens, the state that a line hands to the next, and runs under construction.
use vstd::prelude::*;
use vstd::utf8::encode_utf8;

use crate::text::{from_chars, to_chars, trimmed_end, trimmed_start, white_end};

verus! {

/// What a lexer decided a span of bytes is.
#[derive(Debug, Clone, Copy, PartialEq, Eq, Structural)]
pub enum TokenKind {
    /// Whatever the lexer had no opinion about, drawn in the foreground.
    Plain,
    /// To the end of the line, or the whole of a block comment's line.
    Comment,
    /// Quoted text, including its quotes.
    String,
    /// A numeric literal, and anything dotted or colon-separated that starts like
    /// one: a version, an address, a timestamp.
    Number,
    /// A word the format reserves.
    Keyword,
    /// The left-hand side of a mapping, or a section header.
    Key,
    /// A shell-style expansion: `$NAME`, `${...}`, a YAML anchor or alias.
    Variable,
    /// `true`, `false`, `null` and the spellings each format allows.
    Literal,
}

/// A classified span of one line, in bytes from the start of that line.
#[derive(Debug, Clone, Copy, PartialEq, Eq, Structural)]
pub struct Token {
    /// What it is.
    pub kind: TokenKind,
    /// First byte, inclusive.
    pub start: usize,
    /// Last byte, exclusive.
    pub end: usize,
}

/// The longest heredoc tag a [`LineState`] can carry, in bytes.
pub const TAG_LIMIT: usize = 16;

/// An open shell heredoc: the tag that will close it, and how.
#[derive(Debug, Clone, Copy, Eq)]
pub struct Heredoc {
    /// The tag, `len` bytes of it, and zeros.
    tag: [u8; TAG_LIMIT],
    /// How much of `tag` is the tag.
    len: u8,
    /// `<<-` rather than `<<`, which lets the terminator be indented.
    dash: bool,
}

/// A line closes a heredoc: it is the tag, but for white space at its end and,
/// when the heredoc allows it, at its start.
pub open spec fn closes(line: Seq<char>, tag: Seq<u8>, dash: bool) -> bool {
    encode_utf8(
        trimmed_end(
            if dash {
                trimmed_start(line)
            } else {
                line
            },
        ),
    ) == tag
}

impl Heredoc {
    /// The tag fits, and nothing but zeros stands behind it.
    #[verifier::type_invariant]
    pub closed spec fn is_sound(self) -> bool {
        &&& 1 <= self.len <= TAG_LIMIT
        &&& forall|k: int| self.len <= k < TAG_LIMIT ==> #[trigger] self.tag@[k] == 0
    }

    /// The tag and the dash tell the heredoc from any other.
    pub open spec fn told_by_its_tag(self) -> bool {
        forall|other: Heredoc| #[trigger]
            other.is_sound() ==> ((self == other) == (self.tag_bytes() == other.tag_bytes() && self.is_dash()
                == other.is_dash()))
    }

    /// The bytes of the tag.
    pub closed spec fn tag_bytes(self) -> Seq<u8> {
        self.tag@.take(self.len as int)
    }

    /// Whether the terminator may be indented.
    pub closed spec fn is_dash(self) -> bool {
        self.dash
    }

    /// A heredoc closed by `tag`, or `None` when the tag will not fit.
    pub fn new(tag: &str, dash: bool) -> (heredoc: Option<Heredoc>)
        ensures
            match heredoc {
                Some(heredoc) => heredoc.tag_bytes() == encode_utf8(tag@) && heredoc.is_dash() == dash && 1
                    <= encode_utf8(tag@).len() <= TAG_LIMIT && heredoc.is_sound() && heredoc.told_by_its_tag(),
                None => encode_utf8(tag@).len() == 0 || encode_utf8(tag@).len() > TAG_LIMIT,
            },
    {
        let bytes = tag.as_bytes();
        Heredoc::of(bytes, 0, bytes.len(), dash)
    }

    /// A heredoc closed by a stretch of bytes, or `None` when it will not fit.
    pub fn of(bytes: &[u8], from: usize, to: usize, dash: bool) -> (heredoc: Option<Heredoc>)
        requires
            from <= to <= bytes@.len(),
        ensures
            match heredoc {
                Some(heredoc) => heredoc.tag_bytes() == bytes@.subrange(from as int, to as int)
                    && heredoc.is_dash() == dash && 1 <= to - from <= TAG_LIMIT && heredoc.is_sound()
                    && heredoc.told_by_its_tag(),
                None => to - from == 0 || to - from > TAG_LIMIT,
            },
    {
        if from == to || to - from > TAG_LIMIT {
            return None;
        }
        let mut tag: [u8; TAG_LIMIT] = [0; TAG_LIMIT];
        let mut i: usize = 0;
        while i < to - from
            invariant
                from <= to <= bytes@.len(),
                i <= to - from <= TAG_LIMIT,
                forall|k: int| 0 <= k < i ==> tag@[k] == bytes@[from + k],
                forall|k: int| i <= k < TAG_LIMIT ==> #[trigger] tag@[k] == 0,
            decreases to - from - i,
        {
            tag[i] = bytes[from + i];
            i += 1;
        }
        let heredoc = Heredoc { tag, len: (to - from) as u8, dash };
        proof {
            assert(heredoc.tag_bytes() =~= bytes@.subrange(from as int, to as int));
            assert forall|other: Heredoc| #[trigger] other.is_sound() implies ((heredoc == other) == (
            heredoc.tag_bytes() == other.tag_bytes() && heredoc.is_dash() == other.is_dash())) by {
                heredocs_are_told_by_their_tags(heredoc, other);
            }
        }
        Some(heredoc)
    }

    /// Whether `line` is the terminator.
    ///
    /// Trailing white space is forgiven, and leading white space is forgiven only
    /// for `<<-`.
    pub fn terminates(&self, line: &str) -> (is: bool)
        ensures
            is == closes(line@, self.tag_bytes(), self.is_dash()),
    {
        proof {
            use_type_invariant(self);
        }
        let chars = to_chars(line);
        let mut start: usize = 0;
        if self.dash {
            while start < chars.len() && chars[start].is_whitespace()
                invariant
                    start <= chars@.len(),
                    white_end(chars@, 0, true) == white_end(chars@, start as int, true),
                decreases chars@.len() - start,
            {
                start += 1;
            }
        }
        let ghost candidate = chars@.skip(start as int);
        let mut end: usize = chars.len();
        proof {
            assert(chars@.subrange(start as int, end as int) =~= candidate);
            assert(!self.dash ==> candidate =~= chars@);
        }
        while end > start && chars[end - 1].is_whitespace()
            invariant
                start <= end <= chars@.len(),
                trimmed_end(chars@.subrange(start as int, end as int)) == trimmed_end(candidate),
            decreases end,
        {
            proof {
                let part = chars@.subrange(start as int, end as int);
                assert(part.drop_last() =~= chars@.subrange(start as int, end - 1));
                assert(part.last() == chars@[end - 1]);
            }
            end -= 1;
        }
        proof {
            if end > start {
                assert(chars@.subrange(start as int, end as int).last() == chars@[end - 1]);
            }
        }
        let text = from_chars(&chars, start, end);
        let bytes = text.as_str().as_bytes();
        let len: usize = self.len as usize;
        if bytes.len() != len {
            return false;
        }
        let mut i: usize = 0;
        while i < len
            invariant
                len == self.len,
                len <= TAG_LIMIT,
                i <= len,
                len == bytes@.len(),
                bytes@ == encode_utf8(text@),
                text@ == trimmed_end(candidate),
                candidate == (if self.dash {
                    trimmed_start(line@)
                } else {
                    line@
                }),
                forall|k: int| 0 <= k < i ==> self.tag@[k] == bytes@[k],
            decreases len - i,
        {
            if bytes[i] != self.tag[i] {
                assert(self.tag_bytes()[i as int] != bytes@[i as int]);
                return false;
            }
            i += 1;
        }
        proof {
            assert(self.tag_bytes() =~= bytes@);
        }
        true
    }
}

/// Heredocs are equal exactly when their tags are and both or neither have a dash.
pub proof fn heredocs_are_told_by_their_tags(a: Heredoc, b: Heredoc)
    requires
        a.is_sound(),
        b.is_sound(),
    ensures
        (a == b) == (a.tag_bytes() == b.tag_bytes() && a.is_dash() == b.is_dash()),
{
    if a.tag_bytes() == b.tag_bytes() && a.is_dash() == b.is_dash() {
        assert(a.tag_bytes().len() == a.len && b.tag_bytes().len() == b.len);
        assert forall|i: int| 0 <= i < TAG_LIMIT implies a.tag[i] == b.tag[i] by {
            if i < a.len {
                assert(a.tag_bytes()[i] == b.tag_bytes()[i]);
            } else {
                assert(a.tag@[i] == 0 && b.tag@[i] == 0);
            }
        }
        assert(a.tag =~= b.tag);
    }
}

impl PartialEq for Heredoc {
    fn eq(&self, other: &Heredoc) -> (equal: bool) {
        proof {
            use_type_invariant(self);
            use_type_invariant(other);
            assert(self.tag_bytes().len() == self.len && other.tag_bytes().len() == other.len);
        }
        if self.len != other.len || self.dash != other.dash {
            return false;
        }
        let len: usize = self.len as usize;
        let mut i: usize = 0;
        while i < len
            invariant
                len == self.len,
                len == other.len,
                len <= TAG_LIMIT,
                i <= len,
                forall|k: int| 0 <= k < i ==> self.tag@[k] == other.tag@[k],
            decreases len - i,
        {
            if self.tag[i] != other.tag[i] {
                assert(self.tag_bytes()[i as int] != other.tag_bytes()[i as int]);
                return false;
            }
            i += 1;
        }
        assert(self.tag_bytes() =~= other.tag_bytes());
        true
    }
}

impl vstd::std_specs::cmp::PartialEqSpecImpl for Heredoc {
    open spec fn obeys_eq_spec() -> bool {
        true
    }

    open spec fn eq_spec(&self, other: &Heredoc) -> bool {
        self.tag_bytes() == other.tag_bytes() && self.is_dash() == other.is_dash()
    }
}

/// What a line was left in the middle of.
#[derive(Debug, Clone, Copy, PartialEq, Eq)]
pub enum Carry {
    /// Nothing: the line closed everything it opened.
    Start,
    /// A quote left open, carried by the quote byte. Shell only.
    Quote(u8),
    /// A TOML multi-line string, carried by the quote byte it opened with.
    Multiline(u8),
    /// A shell heredoc still waiting for its tag.
    Heredoc(Heredoc),
    /// A YAML block scalar, carrying the indentation of the line that introduced
    /// it: the body is everything indented further than that.
    BlockScalar(u16),
    /// A Dockerfile instruction the previous line ended with a `\`.
    Continued,
}

/// What a [`LineState`] carries.
pub enum CarryView {
    Start,
    Quote(u8),
    Multiline(u8),
    Heredoc(Seq<u8>, bool),
    BlockScalar(u16),
    Continued,
}

/// The state a line ends in, and the state the next one starts from.
#[derive(Debug, Clone, Copy, Eq)]
pub struct LineState(pub Carry);

impl PartialEq for LineState {
    fn eq(&self, other: &LineState) -> (equal: bool) {
        match (self.0, other.0) {
            (Carry::Start, Carry::Start) => true,
            (Carry::Quote(one), Carry::Quote(two)) => one == two,
            (Carry::Multiline(one), Carry::Multiline(two)) => one == two,
            (Carry::Heredoc(one), Carry::Heredoc(two)) => one == two,
            (Carry::BlockScalar(one), Carry::BlockScalar(two)) => one == two,
            (Carry::Continued, Carry::Continued) => true,
            _ => false,
        }
    }
}

impl vstd::std_specs::cmp::PartialEqSpecImpl for LineState {
    open spec fn obeys_eq_spec() -> bool {
        true
    }

    open spec fn eq_spec(&self, other: &LineState) -> bool {
        self@ == other@
    }
}

impl View for LineState {
    type V = CarryView;

    open spec fn view(&self) -> CarryView {
        match self.0 {
            Carry::Start => CarryView::Start,
            Carry::Quote(quote) => CarryView::Quote(quote),
            Carry::Multiline(quote) => CarryView::Multiline(quote),
            Carry::Heredoc(heredoc) => CarryView::Heredoc(heredoc.tag_bytes(), heredoc.is_dash()),
            Carry::BlockScalar(indent) => CarryView::BlockScalar(indent),
            Carry::Continued => CarryView::Continued,
        }
    }
}

impl Default for LineState {
    fn default() -> (state: LineState)
        ensures
            state@ is Start,
    {
        LineState::start()
    }
}

/// States are equal exactly when they carry the same: the view leaves nothing out.
pub proof fn states_are_told_by_what_they_carry(a: LineState, b: LineState)
    requires
        a.is_sound(),
        b.is_sound(),
    ensures
        (a == b) == (a@ == b@),
{
    match (a.0, b.0) {
        (Carry::Heredoc(one), Carry::Heredoc(two)) => {
            heredocs_are_told_by_their_tags(one, two);
        },
        _ => {},
    }
}

impl LineState {
    /// A heredoc that is carried is sound.
    pub open spec fn is_sound(self) -> bool {
        self.0 matches Carry::Heredoc(heredoc) ==> heredoc.is_sound()
    }

    /// The state that carries `carry`.
    pub fn carrying(carry: Carry) -> (state: LineState)
        ensures
            state == LineState(carry),
            state.is_sound(),
    {
        match carry {
            Carry::Heredoc(heredoc) => {
                proof {
                    use_type_invariant(&heredoc);
                }
            },
            _ => {},
        }
        LineState(carry)
    }

    /// The state the first line of a file starts in.
    pub fn start() -> (state: LineState)
        ensures
            state == LineState(Carry::Start),
            state@ is Start,
    {
        LineState(Carry::Start)
    }

    /// Whether nothing is carried over.
    pub fn is_start(self) -> (is: bool)
        ensures
            is == (self@ is Start),
    {
        matches!(self.0, Carry::Start)
    }
}

/// Tokens cover a line from one offset to another in order, without gaps, without
/// overlaps and without an empty token.
pub open spec fn tiles(tokens: Seq<Token>, from: int, to: int) -> bool
    decreases tokens.len(),
{
    if tokens.len() == 0 {
        from == to
    } else {
        &&& tokens.last().end == to
        &&& tokens.last().start < tokens.last().end
        &&& tiles(tokens.drop_last(), from, tokens.last().start as int)
    }
}

/// A plain token, where there is something for it to cover.
pub open spec fn plain_run(from: int, to: int) -> Seq<Token> {
    if from < to {
        seq![Token { kind: TokenKind::Plain, start: from as usize, end: to as usize }]
    } else {
        Seq::empty()
    }
}

/// A span, where there is something for it to cover.
pub open spec fn span_run(kind: TokenKind, at: int, end: int) -> Seq<Token> {
    if at < end {
        seq![Token { kind, start: at as usize, end: end as usize }]
    } else {
        Seq::empty()
    }
}

/// Where the plain run stays open after spans.
pub open spec fn open_from(spans: Seq<Token>) -> int {
    if spans.len() == 0 {
        0
    } else {
        spans.last().end as int
    }
}

/// Spans with the gaps between them filled by plain tokens.
pub open spec fn filled(spans: Seq<Token>) -> Seq<Token>
    decreases spans.len(),
{
    if spans.len() == 0 {
        Seq::empty()
    } else {
        filled(spans.drop_last()) + plain_run(open_from(spans.drop_last()), spans.last().start as int) + seq![
            spans.last(),
        ]
    }
}

/// Spans with every gap of a line of `len` bytes filled by plain tokens.
pub open spec fn tiled(spans: Seq<Token>, len: int) -> Seq<Token> {
    filled(spans) + plain_run(open_from(spans), len)
}

/// Spans that go forward from an offset, inside a line of `len` bytes.
pub open spec fn ordered(spans: Seq<Token>, len: int) -> bool
    decreases spans.len(),
{
    if spans.len() == 0 {
        0 <= len
    } else {
        &&& spans.last().start < spans.last().end <= len
        &&& open_from(spans.drop_last()) <= spans.last().start
        &&& ordered(spans.drop_last(), len)
    }
}

/// Spans that go forward, with their gaps filled, cover the line exactly.
pub proof fn filled_spans_tile_the_line(spans: Seq<Token>, len: int)
    requires
        len <= usize::MAX,
        ordered(spans, len),
    ensures
        tiles(tiled(spans, len), 0, len),
{
    lemma_filled(spans, len);
    lemma_tiles_run(filled(spans), TokenKind::Plain, open_from(spans), len);
}

/// One more run after tokens that tile.
proof fn lemma_tiles_run(tokens: Seq<Token>, kind: TokenKind, at: int, end: int)
    requires
        tiles(tokens, 0, at),
        0 <= at <= end <= usize::MAX,
    ensures
        tiles(tokens + span_run(kind, at, end), 0, end),
{
    let run = span_run(kind, at, end);
    if at < end {
        assert((tokens + run).drop_last() =~= tokens);
        assert((tokens + run).last() == run[0]);
    } else {
        assert(tokens + run =~= tokens);
    }
}

proof fn lemma_filled(spans: Seq<Token>, len: int)
    requires
        len <= usize::MAX,
        ordered(spans, len),
    ensures
        tiles(filled(spans), 0, open_from(spans)),
        0 <= open_from(spans) <= len,
    decreases spans.len(),
{
    if spans.len() > 0 {
        let before = spans.drop_last();
        let span = spans.last();
        lemma_filled(before, len);
        lemma_tiles_run(filled(before), TokenKind::Plain, open_from(before), span.start as int);
        let tokens = filled(before) + plain_run(open_from(before), span.start as int);
        lemma_tiles_run(tokens, span.kind, span.start as int, span.end as int);
        assert(span_run(span.kind, span.start as int, span.end as int) =~= seq![span]);
    }
}

/// Tokens under construction, with the plain runs filled in.
///
/// A lexer says where the interesting spans are, in order, and everything between
/// one and the next becomes a [`TokenKind::Plain`] token when it is passed over.
pub struct Runs {
    /// What has been decided.
    pub tokens: Vec<Token>,
    /// Where the plain run that is still open begins.
    pub plain_from: usize,
}

impl Runs {
    /// An empty line's worth.
    pub fn new() -> (runs: Runs)
        ensures
            runs.tokens@.len() == 0,
            runs.plain_from == 0,
    {
        Runs { tokens: Vec::new(), plain_from: 0 }
    }

    /// Records `at..end` as `kind`, closing any plain run before it.
    ///
    /// A span that starts behind one already pushed is cut to what is left of it,
    /// so there is never an overlap.
    pub fn push(&mut self, kind: TokenKind, at: usize, end: usize)
        ensures
            ({
                let from = old(self).plain_from as int;
                let at = if at < from {
                    from
                } else {
                    at as int
                };
                let end = if end < at {
                    at
                } else {
                    end as int
                };
                &&& final(self).tokens@ == old(self).tokens@ + plain_run(from, at) + span_run(kind, at, end)
                &&& final(self).plain_from == end
            }),
    {
        let at: usize = if at < self.plain_from { self.plain_from } else { at };
        let end: usize = if end < at { at } else { end };
        let ghost before = self.tokens@;
        if at > self.plain_from {
            self.tokens.push(Token { kind: TokenKind::Plain, start: self.plain_from, end: at });
        }
        assert(self.tokens@ =~= before + plain_run(self.plain_from as int, at as int));
        if end > at {
            self.tokens.push(Token { kind, start: at, end });
        }
        assert(self.tokens@ =~= before + plain_run(self.plain_from as int, at as int) + span_run(
            kind,
            at as int,
            end as int,
        ));
        self.plain_from = end;
    }

    /// The tokens, with the tail of a `len`-byte line closed off.
    pub fn finish(self, len: usize) -> (tokens: Vec<Token>)
        ensures
            tokens@ == self.tokens@ + plain_run(self.plain_from as int, len as int),
    {
        let mut tokens = self.tokens;
        if len > self.plain_from {
            tokens.push(Token { kind: TokenKind::Plain, start: self.plain_from, end: len });
        }
        assert(tokens@ =~= self.tokens@ + plain_run(self.plain_from as int, len as int));
        tokens
    }
}

} // verus!
