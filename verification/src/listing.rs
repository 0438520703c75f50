//! Directory listings: their order, and how paths and sizes are written.
use vstd::prelude::*;

use crate::text::{copy, decimal, decimal_text, from_chars, join2, join3, to_chars};

verus! {

/// Longest remote path the header shows in full, in characters.
pub const PATH_CHARS: usize = 38;

/// One entry of a remote directory.
#[derive(Debug)]
pub struct RemoteEntry {
    /// Name within the directory.
    pub name: String,
    pub is_dir: bool,
    pub is_symlink: bool,
    /// Size in bytes.
    pub size: u64,
}

/// What std makes of a text in small letters.
pub uninterp spec fn lowercased(text: Seq<char>) -> Seq<char>;

/// Writes a text in small letters: `str::to_lowercase` of std, which goes by
/// Unicode alone. What it makes of a text is left to std.
#[verifier::external_body]
fn to_lowercase(text: &str) -> (small: String)
    ensures
        small@ == lowercased(text@),
{
    text.to_lowercase()
}

/// An entry and its name in small letters.
#[derive(Debug)]
pub struct Keyed {
    pub lower: String,
    pub entry: RemoteEntry,
}

/// What a [`Keyed`] holds.
pub struct KeyView {
    pub lower: Seq<char>,
    pub entry: RemoteEntry,
}

impl View for Keyed {
    type V = KeyView;

    open spec fn view(&self) -> KeyView {
        KeyView { lower: self.lower@, entry: self.entry }
    }
}

/// What several [`Keyed`] hold.
pub open spec fn key_views(items: Seq<Keyed>) -> Seq<KeyView> {
    Seq::new(items.len(), |i: int| items[i]@)
}

/// A text comes before another: by the first character that differs, and a
/// beginning before what it begins.
pub open spec fn text_before(a: Seq<char>, b: Seq<char>) -> bool
    decreases a.len(),
{
    if b.len() == 0 {
        false
    } else if a.len() == 0 {
        true
    } else if a[0] != b[0] {
        (a[0] as int) < (b[0] as int)
    } else {
        text_before(a.drop_first(), b.drop_first())
    }
}

/// An entry comes before another: directories first, then by name ignoring case,
/// then by the exact name.
pub open spec fn before(a: KeyView, b: KeyView) -> bool {
    if a.entry.is_dir != b.entry.is_dir {
        a.entry.is_dir
    } else if a.lower != b.lower {
        text_before(a.lower, b.lower)
    } else {
        text_before(a.entry.name@, b.entry.name@)
    }
}

/// A sorted listing with one more entry: in front of all that it comes before, at
/// the end of the others.
pub open spec fn placed(items: Seq<KeyView>, item: KeyView) -> Seq<KeyView>
    decreases items.len(),
{
    if items.len() == 0 || !before(item, items.last()) {
        items.push(item)
    } else {
        placed(items.drop_last(), item).push(items.last())
    }
}

/// A listing in its order. Entries that neither comes before the other keep their
/// places.
pub open spec fn sorted(items: Seq<KeyView>) -> Seq<KeyView>
    decreases items.len(),
{
    if items.len() == 0 {
        items
    } else {
        placed(sorted(items.drop_last()), items.last())
    }
}

/// Entries with their names in small letters.
pub open spec fn keyed(entries: Seq<RemoteEntry>) -> Seq<KeyView> {
    Seq::new(entries.len(), |i: int| KeyView { lower: lowercased(entries[i].name@), entry: entries[i] })
}

/// The entries alone.
pub open spec fn unkeyed(items: Seq<KeyView>) -> Seq<RemoteEntry> {
    Seq::new(items.len(), |i: int| items[i].entry)
}

/// The order of a listing.
pub open spec fn listed(entries: Seq<RemoteEntry>) -> Seq<RemoteEntry> {
    unkeyed(sorted(keyed(entries)))
}

/// Two sorted listings as one; what comes from the second follows its equals from
/// the first.
spec fn merged(a: Seq<KeyView>, b: Seq<KeyView>) -> Seq<KeyView>
    decreases a.len() + b.len(),
{
    if a.len() == 0 {
        b
    } else if b.len() == 0 {
        a
    } else if before(b.last(), a.last()) {
        merged(a.drop_last(), b).push(a.last())
    } else {
        merged(a, b.drop_last()).push(b.last())
    }
}

proof fn lemma_text_order(a: Seq<char>, b: Seq<char>, c: Seq<char>)
    ensures
        !(text_before(a, b) && text_before(b, a)),
        a == b || text_before(a, b) || text_before(b, a),
        text_before(a, b) && text_before(b, c) ==> text_before(a, c),
    decreases a.len(),
{
    if a.len() > 0 && b.len() > 0 && a[0] == b[0] {
        if c.len() > 0 && b[0] == c[0] {
            lemma_text_order(a.drop_first(), b.drop_first(), c.drop_first());
        } else {
            lemma_text_order(a.drop_first(), b.drop_first(), c);
        }
        if a.drop_first() == b.drop_first() {
            assert forall|i: int| 0 < i < a.len() implies a[i] == b[i] by {
                assert(a[i] == a.drop_first()[i - 1]);
                assert(b[i] == b.drop_first()[i - 1]);
            }
            assert(a.len() == b.len());
            assert(a =~= b);
        }
    }
    if a.len() == 0 && b.len() == 0 {
        assert(a =~= b);
    }
}

/// What does not come before one of two in order does not come before the other.
proof fn lemma_order(a: KeyView, b: KeyView, c: KeyView)
    ensures
        !(before(a, b) && before(b, a)),
        !before(b, a) && !before(c, b) ==> !before(c, a),
{
    lemma_text_order(a.lower, b.lower, c.lower);
    lemma_text_order(b.lower, c.lower, a.lower);
    lemma_text_order(c.lower, a.lower, b.lower);
    lemma_text_order(c.lower, b.lower, a.lower);
    lemma_text_order(a.entry.name@, b.entry.name@, c.entry.name@);
    lemma_text_order(b.entry.name@, c.entry.name@, a.entry.name@);
    lemma_text_order(c.entry.name@, a.entry.name@, b.entry.name@);
    lemma_text_order(c.entry.name@, b.entry.name@, a.entry.name@);
}

proof fn lemma_merge_placed(a: Seq<KeyView>, b: Seq<KeyView>, item: KeyView)
    ensures
        placed(merged(a, b), item) == merged(a, placed(b, item)),
    decreases a.len() + b.len(),
{
    let m = merged(a, b);
    if a.len() == 0 {
    } else if b.len() == 0 {
        assert(placed(b, item) =~= seq![item]);
        assert(seq![item].drop_last() =~= b);
        if before(item, a.last()) {
            lemma_merge_placed(a.drop_last(), b, item);
            if a.drop_last().len() == 0 {
                assert(a.drop_last() =~= b);
            }
        }
    } else if before(b.last(), a.last()) {
        assert(m.drop_last() =~= merged(a.drop_last(), b));
        lemma_order(b.last(), a.last(), item);
        if before(item, a.last()) {
            lemma_merge_placed(a.drop_last(), b, item);
            lemma_placed_last(b, item);
        } else {
            assert(b.push(item).drop_last() =~= b);
        }
    } else {
        assert(m.drop_last() =~= merged(a, b.drop_last()));
        lemma_order(a.last(), b.last(), item);
        if before(item, b.last()) {
            lemma_merge_placed(a, b.drop_last(), item);
            assert(placed(b, item).drop_last() =~= placed(b.drop_last(), item));
        } else {
            assert(b.push(item).drop_last() =~= b);
        }
    }
}

proof fn lemma_placed_last(items: Seq<KeyView>, item: KeyView)
    ensures
        placed(items, item).len() == items.len() + 1,
        placed(items, item).last() == item || (items.len() > 0 && placed(items, item).last() == items.last()),
    decreases items.len(),
{
    if items.len() > 0 && before(item, items.last()) {
        lemma_placed_last(items.drop_last(), item);
    }
}

proof fn lemma_merge_sorted(a: Seq<KeyView>, b: Seq<KeyView>)
    ensures
        sorted(a + b) == merged(sorted(a), sorted(b)),
    decreases b.len(),
{
    if b.len() == 0 {
        assert(a + b =~= a);
    } else {
        assert((a + b).drop_last() =~= a + b.drop_last());
        lemma_merge_sorted(a, b.drop_last());
        lemma_merge_placed(sorted(a), sorted(b.drop_last()), b.last());
    }
}

/// Whether a text comes before another.
fn text_comes_before(a: &Vec<char>, b: &Vec<char>) -> (less: bool)
    ensures
        less == text_before(a@, b@),
{
    let mut i: usize = 0;
    proof {
        assert(a@.skip(0) =~= a@);
        assert(b@.skip(0) =~= b@);
    }
    while i < a.len() && i < b.len()
        invariant
            i <= a@.len(),
            i <= b@.len(),
            text_before(a@, b@) == text_before(a@.skip(i as int), b@.skip(i as int)),
        decreases a@.len() - i,
    {
        proof {
            assert(a@.skip(i as int)[0] == a@[i as int]);
            assert(b@.skip(i as int)[0] == b@[i as int]);
            assert(a@.skip(i as int).drop_first() =~= a@.skip(i + 1));
            assert(b@.skip(i as int).drop_first() =~= b@.skip(i + 1));
        }
        if a[i] != b[i] {
            return a[i] < b[i];
        }
        i += 1;
    }
    i < b.len()
}

/// Whether an entry comes before another.
fn comes_before(a: &Keyed, b: &Keyed) -> (less: bool)
    ensures
        less == before(a@, b@),
{
    if a.entry.is_dir != b.entry.is_dir {
        return a.entry.is_dir;
    }
    if !crate::text::same(a.lower.as_str(), b.lower.as_str()) {
        return text_comes_before(&to_chars(a.lower.as_str()), &to_chars(b.lower.as_str()));
    }
    text_comes_before(&to_chars(a.entry.name.as_str()), &to_chars(b.entry.name.as_str()))
}

/// Merges two sorted listings.
fn merge(first: Vec<Keyed>, second: Vec<Keyed>) -> (items: Vec<Keyed>)
    ensures
        key_views(items@) == merged(key_views(first@), key_views(second@)),
{
    let mut a = first;
    let mut b = second;
    let mut back: Vec<Keyed> = Vec::new();
    let ghost all = merged(key_views(a@), key_views(b@));
    proof {
        assert(all =~= all + key_views(back@).reverse());
    }
    while a.len() > 0 && b.len() > 0
        invariant
            all == merged(key_views(a@), key_views(b@)) + key_views(back@).reverse(),
        decreases a@.len() + b@.len(),
    {
        let ghost left = key_views(a@);
        let ghost right = key_views(b@);
        let ghost rest = key_views(back@);
        let from_first = comes_before(&b[b.len() - 1], &a[a.len() - 1]);
        let taken = if from_first { a.pop() } else { b.pop() };
        match taken {
            Some(item) => {
                back.push(item);
                proof {
                    assert(key_views(back@) =~= rest.push(item@));
                    assert(rest.push(item@).reverse() =~= seq![item@] + rest.reverse());
                    if from_first {
                        assert(key_views(a@) =~= left.drop_last());
                    } else {
                        assert(key_views(b@) =~= right.drop_last());
                    }
                    assert(merged(left, right) == merged(key_views(a@), key_views(b@)).push(item@));
                    assert(all =~= merged(key_views(a@), key_views(b@)) + key_views(back@).reverse());
                }
            },
            None => {},
        }
    }
    let mut items = if a.len() > 0 { a } else { b };
    proof {
        if a@.len() == 0 {
            assert(key_views(a@).len() == 0);
        }
    }
    while back.len() > 0
        invariant
            all == key_views(items@) + key_views(back@).reverse(),
        decreases back@.len(),
    {
        let ghost front = key_views(items@);
        let ghost rest = key_views(back@);
        match back.pop() {
            Some(item) => {
                items.push(item);
                proof {
                    assert(key_views(items@) =~= front.push(item@));
                    assert(rest =~= key_views(back@).push(item@));
                    assert(rest.reverse() =~= seq![item@] + key_views(back@).reverse());
                    assert(all =~= key_views(items@) + key_views(back@).reverse());
                }
            },
            None => {},
        }
    }
    proof {
        assert(all =~= key_views(items@));
    }
    items
}

/// Sorts entries whose names in small letters are known.
pub fn order_listing(entries: Vec<Keyed>) -> (items: Vec<Keyed>)
    ensures
        key_views(items@) == sorted(key_views(entries@)),
    decreases entries@.len(),
{
    let len: usize = entries.len();
    if len < 2 {
        proof {
            reveal_with_fuel(sorted, 2);
            assert(key_views(entries@) =~= sorted(key_views(entries@)));
        }
        return entries;
    }
    let mut head = entries;
    let tail = head.split_off(len / 2);
    proof {
        assert(key_views(entries@) =~= key_views(head@) + key_views(tail@));
        lemma_merge_sorted(key_views(head@), key_views(tail@));
    }
    merge(order_listing(head), order_listing(tail))
}

/// Orders a listing the way a file manager does: directories first, then by name
/// ignoring case. Two names differing only in case fall back to the exact order.
pub fn sort_entries(entries: &mut Vec<RemoteEntry>)
    ensures
        final(entries)@ == listed(old(entries)@),
{
    let ghost given = entries@;
    let mut items: Vec<Keyed> = Vec::new();
    // Taken from the end, and turned round below.
    while entries.len() > 0
        invariant
            given == entries@ + unkeyed(key_views(items@)).reverse(),
            forall|i: int|
                0 <= i < items@.len() ==> (#[trigger] items@[i]).lower@ == lowercased(items@[i].entry.name@),
        decreases entries@.len(),
    {
        let ghost left = entries@;
        let ghost taken = unkeyed(key_views(items@));
        match entries.pop() {
            Some(entry) => {
                let lower = to_lowercase(entry.name.as_str());
                items.push(Keyed { lower, entry });
                proof {
                    assert(unkeyed(key_views(items@)) =~= taken.push(entry));
                    assert(taken.push(entry).reverse() =~= seq![entry] + taken.reverse());
                    assert(left =~= entries@.push(entry));
                    assert(given =~= entries@ + unkeyed(key_views(items@)).reverse());
                }
            },
            None => {},
        }
    }
    let ghost gathered = key_views(items@);
    proof {
        assert(given =~= unkeyed(gathered).reverse());
        assert(keyed(given) =~= gathered.reverse());
    }
    let mut turned: Vec<Keyed> = Vec::new();
    while items.len() > 0
        invariant
            gathered.reverse() == key_views(turned@) + key_views(items@).reverse(),
        decreases items@.len(),
    {
        let ghost front = key_views(turned@);
        let ghost rest = key_views(items@);
        match items.pop() {
            Some(item) => {
                turned.push(item);
                proof {
                    assert(key_views(turned@) =~= front.push(item@));
                    assert(rest =~= key_views(items@).push(item@));
                    assert(rest.reverse() =~= seq![item@] + key_views(items@).reverse());
                    assert(gathered.reverse() =~= key_views(turned@) + key_views(items@).reverse());
                }
            },
            None => {},
        }
    }
    proof {
        assert(key_views(turned@) =~= keyed(given));
    }
    let mut ordered = order_listing(turned);
    let ghost order = key_views(ordered@);
    let mut reversed: Vec<RemoteEntry> = Vec::new();
    while ordered.len() > 0
        invariant
            unkeyed(order) == unkeyed(key_views(ordered@)) + reversed@.reverse(),
        decreases ordered@.len(),
    {
        let ghost left = unkeyed(key_views(ordered@));
        let ghost taken = reversed@;
        match ordered.pop() {
            Some(item) => {
                reversed.push(item.entry);
                proof {
                    assert(left =~= unkeyed(key_views(ordered@)).push(item.entry));
                    assert(reversed@.reverse() =~= seq![item.entry] + taken.reverse());
                    assert(unkeyed(order) =~= unkeyed(key_views(ordered@)) + reversed@.reverse());
                }
            },
            None => {},
        }
    }
    proof {
        assert(unkeyed(order) =~= reversed@.reverse());
    }
    while reversed.len() > 0
        invariant
            unkeyed(order) == entries@ + reversed@.reverse(),
        decreases reversed@.len(),
    {
        let ghost front = entries@;
        let ghost rest = reversed@;
        match reversed.pop() {
            Some(entry) => {
                entries.push(entry);
                proof {
                    assert(rest =~= reversed@.push(entry));
                    assert(rest.reverse() =~= seq![entry] + reversed@.reverse());
                    assert(unkeyed(order) =~= entries@ + reversed@.reverse());
                }
            },
            None => {},
        }
    }
    proof {
        assert(entries@ =~= unkeyed(order));
    }
}

/// A listing in its order: no entry stands in front of one that comes before it.
pub open spec fn in_order(items: Seq<KeyView>) -> bool {
    forall|i: int, j: int| 0 <= i < j < items.len() ==> !before(#[trigger] items[j], #[trigger] items[i])
}

proof fn lemma_placed(items: Seq<KeyView>, item: KeyView)
    requires
        in_order(items),
    ensures
        in_order(placed(items, item)),
        placed(items, item).to_multiset() == items.to_multiset().insert(item),
        forall|i: int|
            0 <= i < placed(items, item).len() ==> #[trigger] placed(items, item)[i] == item || items.contains(
                placed(items, item)[i],
            ),
    decreases items.len(),
{
    broadcast use vstd::seq_lib::group_to_multiset_ensures;

    let result = placed(items, item);
    if items.len() == 0 || !before(item, items.last()) {
        assert forall|i: int, j: int| 0 <= i < j < result.len() implies !before(
            #[trigger] result[j],
            #[trigger] result[i],
        ) by {
            if j == items.len() {
                lemma_order(items[i], items.last(), item);
                lemma_order(items.last(), items.last(), item);
            }
        }
        assert forall|i: int| 0 <= i < result.len() implies #[trigger] result[i] == item || items.contains(
            result[i],
        ) by {
            if i < items.len() {
                assert(items[i] == result[i]);
            }
        }
    } else {
        let front = items.drop_last();
        lemma_placed(front, item);
        let head = placed(front, item);
        assert(items =~= front.push(items.last()));
        assert forall|i: int| 0 <= i < result.len() implies #[trigger] result[i] == item || items.contains(
            result[i],
        ) by {
            if i < head.len() {
                assert(result[i] == head[i]);
                if head[i] != item {
                    let k = choose|k: int| 0 <= k < front.len() && front[k] == head[i];
                    assert(items[k] == head[i]);
                }
            } else {
                assert(items[items.len() - 1] == result[i]);
            }
        }
        assert forall|i: int, j: int| 0 <= i < j < result.len() implies !before(
            #[trigger] result[j],
            #[trigger] result[i],
        ) by {
            if j == head.len() {
                assert(result[i] == head[i]);
                lemma_order(item, items.last(), item);
                if head[i] != item {
                    let k = choose|k: int| 0 <= k < front.len() && front[k] == head[i];
                    assert(items[k] == head[i]);
                }
            } else {
                assert(result[i] == head[i] && result[j] == head[j]);
            }
        }
        assert(result.to_multiset() =~= items.to_multiset().insert(item));
    }
}

/// A listing keeps its entries, each as often as it was there, and comes out in
/// order.
pub proof fn listings_keep_their_entries(items: Seq<KeyView>)
    ensures
        in_order(sorted(items)),
        sorted(items).to_multiset() == items.to_multiset(),
        sorted(items).len() == items.len(),
    decreases items.len(),
{
    broadcast use vstd::seq_lib::group_to_multiset_ensures;

    if items.len() > 0 {
        listings_keep_their_entries(items.drop_last());
        lemma_placed(sorted(items.drop_last()), items.last());
        lemma_placed_last(sorted(items.drop_last()), items.last());
        assert(items =~= items.drop_last().push(items.last()));
    }
}

/// A listing that is in order stays as it is: sorting twice is sorting once.
pub proof fn ordered_listings_stay(items: Seq<KeyView>)
    requires
        in_order(items),
    ensures
        sorted(items) == items,
    decreases items.len(),
{
    if items.len() > 0 {
        ordered_listings_stay(items.drop_last());
        assert(items =~= items.drop_last().push(items.last()));
        if items.len() > 1 {
            assert(!before(items[items.len() - 1], items[items.len() - 2]));
        }
    }
}

/// Directories come before files.
pub proof fn directories_come_first(items: Seq<KeyView>, i: int, j: int)
    requires
        0 <= i < j < items.len(),
        sorted(items)[j].entry.is_dir,
    ensures
        sorted(items)[i].entry.is_dir,
{
    listings_keep_their_entries(items);
    assert(!before(sorted(items)[j], sorted(items)[i]));
}

/// A directory and a name, with one separator between them.
pub open spec fn joined(directory: Seq<char>, name: Seq<char>) -> Seq<char> {
    if directory.len() == 0 {
        name
    } else if directory.last() == '/' {
        directory + name
    } else {
        directory + "/"@ + name
    }
}

/// Joins a remote directory and a name with the protocol's separator. Paths are
/// POSIX on the wire whatever the server runs on.
pub fn join(directory: &str, name: &str) -> (path: String)
    ensures
        path@ == joined(directory@, name@),
{
    let chars = to_chars(directory);
    if chars.len() == 0 {
        copy(name)
    } else if chars[chars.len() - 1] == '/' {
        join2(directory, name)
    } else {
        join3(directory, "/", name)
    }
}

/// A path shortened from the front: the tail says where one is.
pub open spec fn elided(path: Seq<char>) -> Seq<char> {
    if path.len() <= PATH_CHARS {
        path
    } else {
        "\u{2026}"@ + path.skip(path.len() - PATH_CHARS + 1)
    }
}

/// Shortens `path` from the front, marking the cut with an ellipsis.
pub fn elide_start(path: &str) -> (shown: String)
    ensures
        shown@ == elided(path@),
{
    let chars = to_chars(path);
    let count: usize = chars.len();
    if count <= PATH_CHARS {
        return copy(path);
    }
    let tail = from_chars(&chars, count - (PATH_CHARS - 1), count);
    proof {
        assert(tail@ =~= path@.skip(path@.len() - PATH_CHARS + 1));
    }
    join2("\u{2026}", tail.as_str())
}

/// A shortened path is never longer than the header has room for, and ends as the
/// path does.
pub proof fn an_elided_path_keeps_its_tail(path: Seq<char>)
    ensures
        elided(path).len() <= PATH_CHARS,
        elided(path).skip(elided(path).len() - (if path.len() < PATH_CHARS {
            path.len() as int
        } else {
            PATH_CHARS - 1
        })) == path.skip(path.len() - (if path.len() < PATH_CHARS {
            path.len() as int
        } else {
            PATH_CHARS - 1
        })),
{
    reveal_strlit("\u{2026}");
    let n = if path.len() < PATH_CHARS {
        path.len() as int
    } else {
        PATH_CHARS - 1
    };
    assert(elided(path).skip(elided(path).len() - n) =~= path.skip(path.len() - n));
}

/// Bytes in a kilobyte.
pub const KB: u64 = 1024;

/// Bytes in a megabyte.
pub const MB: u64 = 1_048_576;

/// Bytes in a gigabyte.
pub const GB: u64 = 1_073_741_824;

/// Bytes in a terabyte.
pub const TB: u64 = 1_099_511_627_776;

/// The first number that a double does not tell from its successor.
pub const EXACT_DOUBLES: u64 = 9_007_199_254_740_992;

/// The quotient nearest to `n / d`, the even one when two are as near.
pub open spec fn half_even(n: int, d: int) -> int {
    let q = n / d;
    let r = n % d;
    if 2 * r < d || (2 * r == d && q % 2 == 0) {
        q
    } else {
        q + 1
    }
}

/// The distance between the doubles around a number.
pub open spec fn spacing(n: nat) -> nat
    decreases n,
{
    if n < EXACT_DOUBLES {
        1
    } else {
        2 * spacing(n / 2)
    }
}

/// The double nearest to a number of bytes.
pub open spec fn nearest_double(n: nat) -> int {
    half_even(n as int, spacing(n) as int) * spacing(n)
}

/// The largest unit that a number of bytes fills, and its symbol.
pub open spec fn unit_of(bytes: int) -> (int, Seq<char>) {
    if bytes >= TB {
        (TB as int, " TB"@)
    } else if bytes >= GB {
        (GB as int, " GB"@)
    } else if bytes >= MB {
        (MB as int, " MB"@)
    } else {
        (KB as int, " KB"@)
    }
}

/// A number of tenths, with one digit behind the point.
pub open spec fn tenths_text(tenths: nat) -> Seq<char> {
    decimal_text(tenths / 10) + "."@ + decimal_text(tenths % 10)
}

/// A byte count the way a file manager writes it: whole bytes below a kilobyte,
/// else tenths of the largest unit that is filled.
pub open spec fn size_text(bytes: u64) -> Seq<char> {
    if bytes < KB {
        decimal_text(bytes as nat) + " B"@
    } else {
        let value = nearest_double(bytes as nat);
        let unit = unit_of(value);
        tenths_text(half_even(value * 10, unit.0) as nat) + unit.1
    }
}

/// The quotient nearest to `n / d`.
fn divide_half_even(n: u128, d: u128) -> (quotient: u128)
    requires
        0 < d < 0x1_0000_0000_0000_0000,
        n < 0x1_0000_0000_0000_0000_0000,
    ensures
        quotient == half_even(n as int, d as int),
        quotient <= n + 1,
{
    let q: u128 = n / d;
    let r: u128 = n % d;
    proof {
        assert(n / d <= n) by (nonlinear_arith)
            requires
                d >= 1,
        ;
    }
    if 2 * r < d || (2 * r == d && q % 2 == 0) {
        q
    } else {
        q + 1
    }
}

/// The distances between doubles that stand for whole numbers of 64 bits.
spec fn is_step(d: int) -> bool {
    ||| d == 1
    ||| d == 2
    ||| d == 4
    ||| d == 8
    ||| d == 16
    ||| d == 32
    ||| d == 64
    ||| d == 128
    ||| d == 256
    ||| d == 512
    ||| d == 1024
    ||| d == 2048
}

proof fn lemma_spacing(n: nat, step: nat, head: nat)
    requires
        n <= u64::MAX,
        step >= 1,
        head == n / step,
        spacing(n) == step * spacing(head),
        head >= EXACT_DOUBLES,
    ensures
        head / 2 == n / (2 * step),
        spacing(n) == (2 * step) * spacing(head / 2),
        step < 2048,
{
    vstd::arithmetic::div_mod::lemma_div_denominator(n as int, step as int, 2);
    assert(step * 2 == 2 * step);
    let rest = spacing(head / 2);
    assert(step * (2 * rest) == (2 * step) * rest) by (nonlinear_arith);
    assert(step < 2048) by {
        if step >= 2048 {
            assert(n / step < EXACT_DOUBLES) by (nonlinear_arith)
                requires
                    n <= u64::MAX,
                    step >= 2048,
                    EXACT_DOUBLES == 9_007_199_254_740_992u64,
            ;
        }
    }
}

/// The double nearest to a number of bytes.
fn round_to_double(bytes: u64) -> (value: u128)
    ensures
        value == nearest_double(bytes as nat),
        value <= 0x1_0000_0000_0000_0000,
        bytes < EXACT_DOUBLES ==> value == bytes,
{
    let mut step: u128 = 1;
    let mut head: u64 = bytes;
    proof {
        assert(bytes as nat / 1 == bytes as nat);
    }
    while head >= EXACT_DOUBLES
        invariant
            is_step(step as int),
            head as nat == bytes as nat / step as nat,
            spacing(bytes as nat) == step as nat * spacing(head as nat),
        decreases head,
    {
        proof {
            lemma_spacing(bytes as nat, step as nat, head as nat);
        }
        step = step * 2;
        head = head / 2;
    }
    proof {
        assert(spacing(head as nat) == 1);
        assert(step as nat * 1 == step as nat);
    }
    let q: u128 = divide_half_even(bytes as u128, step);
    proof {
        lemma_rounded(bytes as int, step as int, q as int);
    }
    q * step
}

proof fn lemma_rounded(n: int, d: int, q: int)
    requires
        0 <= n <= u64::MAX,
        is_step(d),
        q == half_even(n, d),
    ensures
        0 <= q * d <= 0x1_0000_0000_0000_0000,
        d == 1 ==> q * d == n,
{
}

/// Renders a byte count the way a file manager does. The unit symbols are the same
/// in every language.
pub fn format_size(bytes: u64) -> (text: String)
    ensures
        text@ == size_text(bytes),
{
    if bytes < KB {
        return join2(decimal(bytes).as_str(), " B");
    }
    let value: u128 = round_to_double(bytes);
    let unit: u128;
    let symbol: &str;
    if value >= TB as u128 {
        unit = TB as u128;
        symbol = " TB";
    } else if value >= GB as u128 {
        unit = GB as u128;
        symbol = " GB";
    } else if value >= MB as u128 {
        unit = MB as u128;
        symbol = " MB";
    } else {
        unit = KB as u128;
        symbol = " KB";
    }
    let tenths: u128 = divide_half_even(value * 10, unit);
    proof {
        assert(unit >= 1024);
        lemma_quotient(value * 10, unit as int);
    }
    let whole = decimal((tenths / 10) as u64);
    let part = decimal((tenths % 10) as u64);
    let number = join3(whole.as_str(), ".", part.as_str());
    join2(number.as_str(), symbol)
}

proof fn lemma_quotient(n: int, d: int)
    requires
        0 <= n <= 0xA_0000_0000_0000_0000,
        d >= 1024,
    ensures
        0 <= half_even(n, d) <= 0x3_0000_0000_0000_00,
{
    assert(0 <= n / d <= n / 1024) by (nonlinear_arith)
        requires
            0 <= n,
            d >= 1024,
    ;
}

proof fn lemma_whole(count: nat, unit: nat)
    requires
        1 <= count < 1024,
        1 <= unit <= TB,
    ensures
        count * unit < EXACT_DOUBLES,
        nearest_double(count * unit) == count * unit,
        half_even(((count * unit) as int) * 10, unit as int) == count * 10,
        count * unit >= unit,
        count * unit < 1024 * unit,
{
    assert(count * unit < 1024 * TB && count * unit >= unit && count * unit < 1024 * unit) by (nonlinear_arith)
        requires
            1 <= count < 1024,
            1 <= unit <= TB,
    ;
    let n = count * unit;
    assert(n / 1 == n && n % 1 == 0);
    assert(half_even(n as int, 1) == n);
    assert(spacing(n) == 1);
    assert(nearest_double(n) == n);
    assert((count * unit) * 10 == unit * (count * 10)) by (nonlinear_arith);
    vstd::arithmetic::div_mod::lemma_fundamental_div_mod_converse(
        ((count * unit) as int) * 10,
        unit as int,
        (count * 10) as int,
        0,
    );
}

/// A whole number of a unit, below the next unit, is written exactly.
pub proof fn whole_units_are_exact(count: nat)
    requires
        1 <= count < 1024,
    ensures
        size_text((count * KB) as u64) == decimal_text(count) + ".0"@ + " KB"@,
        size_text((count * MB) as u64) == decimal_text(count) + ".0"@ + " MB"@,
        size_text((count * GB) as u64) == decimal_text(count) + ".0"@ + " GB"@,
        size_text((count * TB) as u64) == decimal_text(count) + ".0"@ + " TB"@,
{
    reveal_strlit(".");
    reveal_strlit(".0");
    reveal_with_fuel(decimal_text, 2);
    assert(decimal_text(0) =~= seq!['0']);
    assert("."@ + decimal_text(0) =~= ".0"@);
    assert(decimal_text(count) + "."@ + decimal_text(0) =~= decimal_text(count) + ".0"@);
    lemma_whole(count, KB as nat);
    lemma_whole(count, MB as nat);
    lemma_whole(count, GB as nat);
    lemma_whole(count, TB as nat);
}

/// A text comes before another when it has the smaller character where they first
/// differ, or when the other only goes on from it.
pub proof fn texts_are_ordered_by_their_first_difference(a: Seq<char>, b: Seq<char>, k: int)
    requires
        0 <= k <= a.len(),
        k < b.len(),
        a.take(k) == b.take(k),
    ensures
        k < a.len() && (a[k] as int) < (b[k] as int) ==> text_before(a, b) && !text_before(b, a),
        k == a.len() ==> text_before(a, b) && !text_before(b, a),
        !text_before(a, a),
    decreases k,
{
    lemma_text_order(a, b, a);
    lemma_text_order(a, a, a);
    if k > 0 {
        assert(a.take(k)[0] == a[0] && b.take(k)[0] == b[0]);
        assert(a.drop_first().take(k - 1) =~= a.take(k).drop_first());
        assert(b.drop_first().take(k - 1) =~= b.take(k).drop_first());
        texts_are_ordered_by_their_first_difference(a.drop_first(), b.drop_first(), k - 1);
        assert(b.drop_first()[k - 1] == b[k]);
        if k < a.len() {
            assert(a.drop_first()[k - 1] == a[k]);
        }
    }
}

/// A listing holds the entries it was given, directories first, each kind by name
/// without regard to case, and names that differ in case alone by the exact name.
pub proof fn listings_are_ordered_for_reading(entries: Seq<RemoteEntry>, i: int, j: int)
    requires
        0 <= i < j < entries.len(),
    ensures
        listed(entries).len() == entries.len(),
        listed(entries).to_multiset() == entries.to_multiset(),
        ({
            let a = listed(entries)[i];
            let b = listed(entries)[j];
            &&& b.is_dir ==> a.is_dir
            &&& a.is_dir == b.is_dir ==> !text_before(lowercased(b.name@), lowercased(a.name@))
            &&& a.is_dir == b.is_dir && lowercased(a.name@) == lowercased(b.name@) ==> !text_before(b.name@, a.name@)
        }),
{
    let items = keyed(entries);
    listings_keep_their_entries(items);
    lemma_keys_stay(items);
    assert(!before(sorted(items)[j], sorted(items)[i]));
    lemma_unkeyed(sorted(items), items);
    assert(unkeyed(items) =~= entries);
    let a = sorted(items)[i];
    let b = sorted(items)[j];
    lemma_text_order(a.lower, a.lower, a.lower);
    assert(a.lower == lowercased(a.entry.name@) && b.lower == lowercased(b.entry.name@));
}

/// Sorting keeps the small letters with their names.
proof fn lemma_keys_stay(items: Seq<KeyView>)
    requires
        forall|i: int| 0 <= i < items.len() ==> (#[trigger] items[i]).lower == lowercased(items[i].entry.name@),
    ensures
        forall|i: int|
            0 <= i < sorted(items).len() ==> (#[trigger] sorted(items)[i]).lower == lowercased(
                sorted(items)[i].entry.name@,
            ),
{
    broadcast use vstd::seq_lib::group_to_multiset_ensures;

    listings_keep_their_entries(items);
    assert forall|i: int| 0 <= i < sorted(items).len() implies (#[trigger] sorted(items)[i]).lower == lowercased(
        sorted(items)[i].entry.name@,
    ) by {
        assert(sorted(items).contains(sorted(items)[i]));
        assert(sorted(items).to_multiset().contains(sorted(items)[i]));
        assert(items.contains(sorted(items)[i]));
    }
}

/// Listings of the same items hold the same entries.
proof fn lemma_unkeyed(a: Seq<KeyView>, b: Seq<KeyView>)
    requires
        a.to_multiset() == b.to_multiset(),
    ensures
        unkeyed(a).to_multiset() == unkeyed(b).to_multiset(),
    decreases a.len(),
{
    broadcast use vstd::seq_lib::group_to_multiset_ensures;

    assert(a.to_multiset().len() == a.len() && b.to_multiset().len() == b.len());
    if a.len() == 0 {
        assert(unkeyed(a) =~= unkeyed(b));
    } else {
        let last = a.last();
        assert(a.contains(last));
        assert(a.to_multiset().contains(last));
        assert(b.contains(last));
        let k = choose|k: int| 0 <= k < b.len() && b[k] == last;
        assert(a.drop_last().push(last) =~= a);
        assert(a.drop_last().to_multiset() =~= a.to_multiset().remove(last));
        assert(b.remove(k).to_multiset() =~= b.to_multiset().remove(last));
        lemma_unkeyed(a.drop_last(), b.remove(k));
        assert(unkeyed(a) =~= unkeyed(a.drop_last()).push(last.entry));
        assert(unkeyed(b.remove(k)) =~= unkeyed(b).remove(k));
        assert(unkeyed(b)[k] == last.entry);
        assert(unkeyed(b).remove(k).to_multiset() =~= unkeyed(b).to_multiset().remove(last.entry));
        assert(unkeyed(b).contains(last.entry));
        assert(unkeyed(a).to_multiset() =~= unkeyed(b).to_multiset());
    }
}

/// A path in a directory is the directory, one slash and the name.
pub proof fn one_slash_joins_a_path(directory: Seq<char>, name: Seq<char>)
    ensures
        directory.len() > 0 && directory.last() != '/' ==> joined(directory, name) == directory + seq!['/'] + name,
        directory.len() > 0 && directory.last() == '/' ==> joined(directory, name) == directory + name,
        directory.len() == 0 ==> joined(directory, name) == name,
{
    reveal_strlit("/");
    assert("/"@ =~= seq!['/']);
}

/// A path of up to thirty-eight characters is shown whole; a longer one loses its
/// beginning to an ellipsis.
pub proof fn short_paths_are_shown_whole(path: Seq<char>)
    ensures
        path.len() <= 38 ==> elided(path) == path,
        path.len() > 38 ==> elided(path) == seq!['\u{2026}'] + path.skip(path.len() - 37),
{
    reveal_strlit("\u{2026}");
    assert("\u{2026}"@ =~= seq!['\u{2026}']);
}

/// Sizes below a kilobyte are written in bytes; larger ones, up to where doubles stop
/// being exact, in tenths of the largest unit that they fill, to the nearest.
pub proof fn sizes_are_written_to_the_nearest_tenth(bytes: u64)
    requires
        bytes < 9_007_199_254_740_992,
    ensures
        bytes < 1024 ==> size_text(bytes) == decimal_text(bytes as nat) + " B"@,
        bytes >= 1024 ==> {
            let (unit, name) = if bytes >= 1_099_511_627_776 {
                (1_099_511_627_776int, " TB"@)
            } else if bytes >= 1_073_741_824 {
                (1_073_741_824int, " GB"@)
            } else if bytes >= 1_048_576 {
                (1_048_576int, " MB"@)
            } else {
                (1024int, " KB"@)
            };
            let tenths = half_even(bytes * 10, unit);
            &&& size_text(bytes) == decimal_text((tenths / 10) as nat) + "."@ + decimal_text((tenths % 10) as nat) + name
            &&& -unit <= 2 * (tenths * unit - bytes * 10) <= unit
        },
{
    if bytes >= 1024 {
        assert(spacing(bytes as nat) == 1);
        assert(half_even(bytes as int, 1) == bytes) by {
            assert(bytes as int / 1 == bytes && bytes as int % 1 == 0);
        }
        let unit = unit_of(bytes as int).0;
        let n = bytes * 10;
        assert(n == unit * (n / unit) + n % unit && 0 <= n % unit < unit) by {
            vstd::arithmetic::div_mod::lemma_fundamental_div_mod(n, unit);
        }
        let q = n / unit;
        assert((q + 1) * unit == q * unit + unit) by (nonlinear_arith);
        assert(q * unit == unit * q) by (nonlinear_arith);
    }
}

} // verus!
