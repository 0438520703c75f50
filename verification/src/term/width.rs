//! How many columns a character takes.
//!
//! The emulator goes by the tables of `unicode-width`: a character takes no column,
//! one, or two. Only those that take two are of interest here, because a screen of
//! one column has no room for them.
use vstd::prelude::*;

verus! {

/// A character takes two columns.
#[verifier::opaque]
pub open spec fn is_wide(code: int) -> bool {
    ||| 0x1100 <= code <= 0x115f
    ||| code == 0x17a4
    ||| code == 0x17d8
    ||| 0x231a <= code <= 0x231b
    ||| 0x2329 <= code <= 0x232a
    ||| 0x23e9 <= code <= 0x23ec
    ||| code == 0x23f0
    ||| code == 0x23f3
    ||| 0x25fd <= code <= 0x25fe
    ||| 0x2614 <= code <= 0x2615
    ||| 0x2630 <= code <= 0x2637
    ||| 0x2648 <= code <= 0x2653
    ||| code == 0x267f
    ||| 0x268a <= code <= 0x268f
    ||| code == 0x2693
    ||| code == 0x26a1
    ||| 0x26aa <= code <= 0x26ab
    ||| 0x26bd <= code <= 0x26be
    ||| 0x26c4 <= code <= 0x26c5
    ||| code == 0x26ce
    ||| code == 0x26d4
    ||| code == 0x26ea
    ||| 0x26f2 <= code <= 0x26f3
    ||| code == 0x26f5
    ||| code == 0x26fa
    ||| code == 0x26fd
    ||| code == 0x2705
    ||| 0x270a <= code <= 0x270b
    ||| code == 0x2728
    ||| code == 0x274c
    ||| code == 0x274e
    ||| 0x2753 <= code <= 0x2755
    ||| code == 0x2757
    ||| 0x2795 <= code <= 0x2797
    ||| code == 0x27b0
    ||| code == 0x27bf
    ||| 0x2b1b <= code <= 0x2b1c
    ||| code == 0x2b50
    ||| code == 0x2b55
    ||| 0x2e80 <= code <= 0x2e99
    ||| 0x2e9b <= code <= 0x2ef3
    ||| 0x2f00 <= code <= 0x2fd5
    ||| 0x2ff0 <= code <= 0x3029
    ||| 0x3030 <= code <= 0x303e
    ||| 0x3041 <= code <= 0x3096
    ||| 0x309b <= code <= 0x30ff
    ||| 0x3105 <= code <= 0x312f
    ||| 0x3131 <= code <= 0x3163
    ||| 0x3165 <= code <= 0x318e
    ||| 0x3190 <= code <= 0x31e5
    ||| 0x31ef <= code <= 0x321e
    ||| 0x3220 <= code <= 0x3247
    ||| 0x3250 <= code <= 0xa48c
    ||| 0xa490 <= code <= 0xa4c6
    ||| 0xa960 <= code <= 0xa97c
    ||| 0xac00 <= code <= 0xd7a3
    ||| 0xf900 <= code <= 0xfaff
    ||| 0xfe10 <= code <= 0xfe19
    ||| 0xfe30 <= code <= 0xfe52
    ||| 0xfe54 <= code <= 0xfe66
    ||| 0xfe68 <= code <= 0xfe6b
    ||| 0xff01 <= code <= 0xff60
    ||| 0xffe0 <= code <= 0xffe6
    ||| 0x16fe0 <= code <= 0x16fe3
    ||| 0x16ff2 <= code <= 0x16ff6
    ||| 0x17000 <= code <= 0x18cda
    ||| 0x18cff <= code <= 0x18d20
    ||| 0x18d80 <= code <= 0x18df2
    ||| 0x18e00 <= code <= 0x19191
    ||| 0x191a0 <= code <= 0x191d2
    ||| 0x1aff0 <= code <= 0x1aff3
    ||| 0x1aff5 <= code <= 0x1affb
    ||| 0x1affd <= code <= 0x1affe
    ||| 0x1b000 <= code <= 0x1b128
    ||| code == 0x1b132
    ||| 0x1b150 <= code <= 0x1b152
    ||| code == 0x1b155
    ||| 0x1b164 <= code <= 0x1b168
    ||| 0x1b170 <= code <= 0x1b2fb
    ||| 0x1d300 <= code <= 0x1d356
    ||| 0x1d360 <= code <= 0x1d376
    ||| code == 0x1f004
    ||| code == 0x1f0cf
    ||| code == 0x1f18e
    ||| 0x1f191 <= code <= 0x1f19a
    ||| code == 0x1f1ae
    ||| 0x1f200 <= code <= 0x1f202
    ||| 0x1f210 <= code <= 0x1f23b
    ||| 0x1f240 <= code <= 0x1f248
    ||| 0x1f250 <= code <= 0x1f251
    ||| 0x1f260 <= code <= 0x1f265
    ||| 0x1f300 <= code <= 0x1f320
    ||| 0x1f32d <= code <= 0x1f335
    ||| 0x1f337 <= code <= 0x1f37c
    ||| 0x1f37e <= code <= 0x1f393
    ||| 0x1f3a0 <= code <= 0x1f3ca
    ||| 0x1f3cf <= code <= 0x1f3d3
    ||| 0x1f3e0 <= code <= 0x1f3f0
    ||| code == 0x1f3f4
    ||| 0x1f3f8 <= code <= 0x1f43e
    ||| code == 0x1f440
    ||| 0x1f442 <= code <= 0x1f4fc
    ||| 0x1f4ff <= code <= 0x1f53d
    ||| 0x1f54b <= code <= 0x1f54e
    ||| 0x1f550 <= code <= 0x1f567
    ||| code == 0x1f57a
    ||| 0x1f595 <= code <= 0x1f596
    ||| code == 0x1f5a4
    ||| 0x1f5fb <= code <= 0x1f64f
    ||| 0x1f680 <= code <= 0x1f6c5
    ||| code == 0x1f6cc
    ||| 0x1f6d0 <= code <= 0x1f6d2
    ||| 0x1f6d5 <= code <= 0x1f6d9
    ||| 0x1f6dc <= code <= 0x1f6df
    ||| 0x1f6eb <= code <= 0x1f6ec
    ||| 0x1f6f4 <= code <= 0x1f6fc
    ||| code == 0x1f7da
    ||| 0x1f7e0 <= code <= 0x1f7eb
    ||| code == 0x1f7f0
    ||| 0x1f90c <= code <= 0x1f93a
    ||| 0x1f93c <= code <= 0x1f945
    ||| 0x1f947 <= code <= 0x1f9ff
    ||| 0x1fa70 <= code <= 0x1fa7c
    ||| 0x1fa80 <= code <= 0x1fac6
    ||| code == 0x1fac8
    ||| 0x1facc <= code <= 0x1fadd
    ||| 0x1fadf <= code <= 0x1faeb
    ||| 0x1faef <= code <= 0x1fafa
    ||| 0x20000 <= code <= 0x2fffd
    ||| 0x30000 <= code <= 0x3fffd
}

/// Whether a character takes two columns.
pub fn wide(code: u32) -> (is: bool)
    ensures
        is == is_wide(code as int),
{
    proof {
        reveal(is_wide);
    }
    match code {
        0x1100..=0x115f | 0x17a4 | 0x17d8 | 0x231a..=0x231b | 0x2329..=0x232a | 0x23e9..=0x23ec |
        0x23f0 | 0x23f3 | 0x25fd..=0x25fe | 0x2614..=0x2615 | 0x2630..=0x2637 | 0x2648..=0x2653 |
        0x267f | 0x268a..=0x268f | 0x2693 | 0x26a1 | 0x26aa..=0x26ab | 0x26bd..=0x26be |
        0x26c4..=0x26c5 | 0x26ce | 0x26d4 | 0x26ea | 0x26f2..=0x26f3 | 0x26f5 | 0x26fa | 0x26fd |
        0x2705 | 0x270a..=0x270b | 0x2728 | 0x274c | 0x274e | 0x2753..=0x2755 | 0x2757 |
        0x2795..=0x2797 | 0x27b0 | 0x27bf | 0x2b1b..=0x2b1c | 0x2b50 | 0x2b55 | 0x2e80..=0x2e99 |
        0x2e9b..=0x2ef3 | 0x2f00..=0x2fd5 | 0x2ff0..=0x3029 | 0x3030..=0x303e | 0x3041..=0x3096 |
        0x309b..=0x30ff | 0x3105..=0x312f | 0x3131..=0x3163 | 0x3165..=0x318e | 0x3190..=0x31e5 |
        0x31ef..=0x321e | 0x3220..=0x3247 | 0x3250..=0xa48c | 0xa490..=0xa4c6 | 0xa960..=0xa97c |
        0xac00..=0xd7a3 | 0xf900..=0xfaff | 0xfe10..=0xfe19 | 0xfe30..=0xfe52 | 0xfe54..=0xfe66 |
        0xfe68..=0xfe6b | 0xff01..=0xff60 | 0xffe0..=0xffe6 | 0x16fe0..=0x16fe3 | 0x16ff2..=0x16ff6 |
        0x17000..=0x18cda | 0x18cff..=0x18d20 | 0x18d80..=0x18df2 | 0x18e00..=0x19191 |
        0x191a0..=0x191d2 | 0x1aff0..=0x1aff3 | 0x1aff5..=0x1affb | 0x1affd..=0x1affe |
        0x1b000..=0x1b128 | 0x1b132 | 0x1b150..=0x1b152 | 0x1b155 | 0x1b164..=0x1b168 |
        0x1b170..=0x1b2fb | 0x1d300..=0x1d356 | 0x1d360..=0x1d376 | 0x1f004 | 0x1f0cf | 0x1f18e |
        0x1f191..=0x1f19a | 0x1f1ae | 0x1f200..=0x1f202 | 0x1f210..=0x1f23b | 0x1f240..=0x1f248 |
        0x1f250..=0x1f251 | 0x1f260..=0x1f265 | 0x1f300..=0x1f320 | 0x1f32d..=0x1f335 |
        0x1f337..=0x1f37c | 0x1f37e..=0x1f393 | 0x1f3a0..=0x1f3ca | 0x1f3cf..=0x1f3d3 |
        0x1f3e0..=0x1f3f0 | 0x1f3f4 | 0x1f3f8..=0x1f43e | 0x1f440 | 0x1f442..=0x1f4fc |
        0x1f4ff..=0x1f53d | 0x1f54b..=0x1f54e | 0x1f550..=0x1f567 | 0x1f57a | 0x1f595..=0x1f596 |
        0x1f5a4 | 0x1f5fb..=0x1f64f | 0x1f680..=0x1f6c5 | 0x1f6cc | 0x1f6d0..=0x1f6d2 |
        0x1f6d5..=0x1f6d9 | 0x1f6dc..=0x1f6df | 0x1f6eb..=0x1f6ec | 0x1f6f4..=0x1f6fc | 0x1f7da |
        0x1f7e0..=0x1f7eb | 0x1f7f0 | 0x1f90c..=0x1f93a | 0x1f93c..=0x1f945 | 0x1f947..=0x1f9ff |
        0x1fa70..=0x1fa7c | 0x1fa80..=0x1fac6 | 0x1fac8 | 0x1facc..=0x1fadd | 0x1fadf..=0x1faeb |
        0x1faef..=0x1fafa | 0x20000..=0x2fffd | 0x30000..=0x3fffd => true,
        _ => false,
    }
}

/// A byte that continues a character.
pub open spec fn is_continuation(byte: u8) -> bool {
    0x80 <= byte <= 0xbf
}

/// The character of three bytes.
pub open spec fn code_of_three(a: u8, b: u8, c: u8) -> int {
    (a - 0xe0) * 0x1000 + (b - 0x80) * 0x40 + (c - 0x80)
}

/// The character of four bytes.
pub open spec fn code_of_four(a: u8, b: u8, c: u8, d: u8) -> int {
    (a - 0xf0) * 0x40000 + (b - 0x80) * 0x1000 + (c - 0x80) * 0x40 + (d - 0x80)
}

/// A character that takes two columns stands at an offset. None of those has fewer
/// than three bytes.
pub open spec fn wide_at(bytes: Seq<u8>, at: int) -> bool {
    ||| {
        &&& 0 <= at && at + 2 < bytes.len()
        &&& 0xe0 <= bytes[at] <= 0xef
        &&& is_continuation(bytes[at + 1])
        &&& is_continuation(bytes[at + 2])
        &&& is_wide(code_of_three(bytes[at], bytes[at + 1], bytes[at + 2]))
    }
    ||| {
        &&& 0 <= at && at + 3 < bytes.len()
        &&& 0xf0 <= bytes[at] <= 0xf7
        &&& is_continuation(bytes[at + 1])
        &&& is_continuation(bytes[at + 2])
        &&& is_continuation(bytes[at + 3])
        &&& is_wide(code_of_four(bytes[at], bytes[at + 1], bytes[at + 2], bytes[at + 3]))
    }
}

/// No character of a text takes two columns.
pub open spec fn is_narrow(bytes: Seq<u8>) -> bool {
    forall|at: int| 0 <= at < bytes.len() ==> !#[trigger] wide_at(bytes, at)
}

/// As much of the end of a text as an unfinished character can take.
pub open spec fn ending(bytes: Seq<u8>) -> Seq<u8> {
    if bytes.len() > 3 {
        bytes.skip(bytes.len() - 3)
    } else {
        bytes
    }
}

/// Whether no character of a text takes two columns.
pub fn all_narrow(bytes: &Vec<u8>) -> (all: bool)
    ensures
        all == is_narrow(bytes@),
{
    let len: usize = bytes.len();
    let mut at: usize = 0;
    while at < len
        invariant
            len == bytes@.len(),
            at <= len,
            forall|k: int| 0 <= k < at ==> !#[trigger] wide_at(bytes@, k),
        decreases len - at,
    {
        if has_wide(bytes, at) {
            return false;
        }
        at += 1;
    }
    true
}

fn continuation(byte: u8) -> (is: bool)
    ensures
        is == is_continuation(byte),
{
    0x80 <= byte && byte <= 0xbf
}

/// Whether a character that takes two columns stands at `at`.
fn has_wide(bytes: &Vec<u8>, at: usize) -> (has: bool)
    requires
        at < bytes@.len(),
    ensures
        has == wide_at(bytes@, at as int),
{
    let left: usize = bytes.len() - at;
    let first: u8 = bytes[at];
    if 0xe0 <= first && first <= 0xef {
        left > 2 && continuation(bytes[at + 1]) && continuation(bytes[at + 2]) && wide(
            (first - 0xe0) as u32 * 0x1000 + (bytes[at + 1] - 0x80) as u32 * 0x40 + (bytes[at + 2] - 0x80) as u32,
        )
    } else if 0xf0 <= first && first <= 0xf7 {
        left > 3 && continuation(bytes[at + 1]) && continuation(bytes[at + 2]) && continuation(bytes[at + 3]) && wide(
            (first - 0xf0) as u32 * 0x40000 + (bytes[at + 1] - 0x80) as u32 * 0x1000 + (bytes[at + 2] - 0x80) as u32
                * 0x40 + (bytes[at + 3] - 0x80) as u32,
        )
    } else {
        false
    }
}

/// The end of a text: as much as an unfinished character can take.
pub fn take_ending(bytes: &Vec<u8>) -> (end: Vec<u8>)
    ensures
        end@ == ending(bytes@),
{
    let len: usize = bytes.len();
    let from: usize = if len > 3 { len - 3 } else { 0 };
    let mut end: Vec<u8> = Vec::new();
    let mut at: usize = from;
    while at < len
        invariant
            from <= at <= len,
            len == bytes@.len(),
            end@ == bytes@.subrange(from as int, at as int),
        decreases len - at,
    {
        end.push(bytes[at]);
        proof {
            assert(end@ =~= bytes@.subrange(from as int, at + 1));
        }
        at += 1;
    }
    proof {
        assert(end@ =~= ending(bytes@));
    }
    end
}

/// A text and another behind it are narrow when the first is and when nothing wide
/// begins near its end.
pub proof fn lemma_joined(a: Seq<u8>, b: Seq<u8>)
    ensures
        is_narrow(a + b) == (is_narrow(a) && is_narrow(ending(a) + b)),
        ending(a + b) == ending(ending(a) + b),
{
    let all = a + b;
    let near = ending(a) + b;
    let from = if a.len() > 3 {
        a.len() - 3
    } else {
        0
    };
    assert forall|at: int| 0 <= at < near.len() implies #[trigger] near[at] == all[at + from] by {}
    assert(near.len() + from == all.len());
    assert(ending(all) =~= ending(near));
    if is_narrow(all) {
        assert forall|at: int| 0 <= at < a.len() implies !#[trigger] wide_at(a, at) by {
            assert(!wide_at(all, at));
            assert(all[at] == a[at]);
            if at + 1 < a.len() {
                assert(all[at + 1] == a[at + 1]);
            }
            if at + 2 < a.len() {
                assert(all[at + 2] == a[at + 2]);
            }
            if at + 3 < a.len() {
                assert(all[at + 3] == a[at + 3]);
            }
        }
        assert forall|at: int| 0 <= at < near.len() implies !#[trigger] wide_at(near, at) by {
            assert(!wide_at(all, at + from));
            lemma_shifted(all, near, from, at);
        }
    }
    if is_narrow(a) && is_narrow(near) {
        assert forall|at: int| 0 <= at < all.len() implies !#[trigger] wide_at(all, at) by {
            if at >= from {
                assert(!wide_at(near, at - from));
                lemma_shifted(all, near, from, at - from);
            } else {
                assert(!wide_at(a, at));
                assert(all[at] == a[at] && all[at + 1] == a[at + 1] && all[at + 2] == a[at + 2] && all[at + 3] == a[at
                    + 3]);
            }
        }
    }
}

proof fn lemma_shifted(all: Seq<u8>, near: Seq<u8>, from: int, at: int)
    requires
        0 <= from,
        0 <= at < near.len(),
        near.len() + from == all.len(),
        forall|k: int| 0 <= k < near.len() ==> #[trigger] near[k] == all[k + from],
    ensures
        wide_at(near, at) == wide_at(all, at + from),
{
    if at + 1 < near.len() {
        assert(near[at + 1] == all[at + 1 + from]);
    }
    if at + 2 < near.len() {
        assert(near[at + 2] == all[at + 2 + from]);
    }
    if at + 3 < near.len() {
        assert(near[at + 3] == all[at + 3 + from]);
    }
}

/// Three bytes and four bytes of UTF-8 are read as the character they encode.
pub proof fn codes_are_read_from_their_bits(code: int, high: int, middle: int, low: int, top: int)
    requires
        0 <= high < 16,
        0 <= middle < 64,
        0 <= low < 64,
        0 <= top < 64,
    ensures
        code_of_three((0xe0 + high) as u8, (0x80 + middle) as u8, (0x80 + low) as u8) == high * 4096 + middle * 64
            + low,
        high < 8 ==> code_of_four((0xf0 + high) as u8, (0x80 + top) as u8, (0x80 + middle) as u8, (0x80 + low) as u8)
            == high * 262144 + top * 4096 + middle * 64 + low,
{
}

/// Latin, Greek, Cyrillic and the other letters before Hangul are narrow; the ideographs,
/// Hangul syllables, kana and full-width forms are wide.
pub proof fn ideographs_are_wide(code: int)
    ensures
        0 <= code < 0x1100 ==> !is_wide(code),
        0x4e00 <= code <= 0x9fff ==> is_wide(code),
        0x3400 <= code <= 0x4dbf ==> is_wide(code),
        0xac00 <= code <= 0xd7a3 ==> is_wide(code),
        0x3041 <= code <= 0x3096 ==> is_wide(code),
        0xff01 <= code <= 0xff60 ==> is_wide(code),
        0x1f600 <= code <= 0x1f64f ==> is_wide(code),
        0x20000 <= code <= 0x2fffd ==> is_wide(code),
        0x2500 <= code <= 0x257f ==> !is_wide(code),
        0xe000 <= code <= 0xf8ff ==> !is_wide(code),
{
    reveal(is_wide);
}

/// The end of some bytes is their last three, or all of them.
pub proof fn endings_are_short(bytes: Seq<u8>)
    ensures
        bytes.len() <= 3 ==> ending(bytes) == bytes,
        bytes.len() > 3 ==> ending(bytes).len() == 3 && ending(bytes).last() == bytes.last(),
{
}

} // verus!
