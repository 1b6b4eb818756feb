//! Directory entries, how they are named, hidden, ordered and filtered.

use crate::order::{
    directed, entry_order, flipped, int_order, is_listing_order, lemma_entry_order_equal, lemma_entry_order_flip,
    lemma_less_then_listed, lemma_not_less_before, lex_order, listed_before, name_order, char_before, Rank,
    byte_order, folded_name,
};
use crate::paths::share;
use crate::text::{chars_of, contains_chars, lossy, lossy_text, lowercase, occurs_in, push_char, to_lowercase};
use std::path::PathBuf;
use std::rc::Rc;
use std::cmp::Ordering;
use vstd::prelude::*;

verus! {

broadcast use vstd::seq_lib::group_to_multiset_ensures;

/// One entry of a directory listing. Its name and path keep the bytes the
/// file system gave; they are shared between the copies of an entry.
#[derive(Debug)]
pub struct Entry {
    /// The bytes of the entry's file name.
    pub name: Rc<Vec<u8>>,
    /// The entry's full path.
    pub path: Rc<PathBuf>,
    /// Whether the entry is a directory, or a symbolic link to one.
    pub is_dir: bool,
    /// Whether the entry itself is a symbolic link.
    pub is_symlink: bool,
    /// Modification time in nanoseconds from the Unix epoch (negative before
    /// it), where the file system reported one.
    pub modified: Option<i128>,
}

impl Clone for Entry {
    fn clone(&self) -> (copy: Self)
        ensures
            copy == *self,
    {
        Entry {
            name: share(&self.name),
            path: share(&self.path),
            is_dir: self.is_dir,
            is_symlink: self.is_symlink,
            modified: self.modified,
        }
    }
}

/// The name shown for an entry: its file name as text (invalid UTF-8
/// replaced), then `/` for a directory and `@` for a symbolic link.
pub open spec fn display_name_of(e: Entry) -> Seq<char> {
    lossy_text(e.name@) + (if e.is_dir {
        seq!['/']
    } else {
        Seq::<char>::empty()
    }) + (if e.is_symlink {
        seq!['@']
    } else {
        Seq::<char>::empty()
    })
}

impl Entry {
    /// An entry with the given name bytes, path and facts.
    pub fn new(name: Vec<u8>, path: PathBuf, is_dir: bool, is_symlink: bool, modified: Option<i128>) -> (entry: Entry)
        ensures
            entry.name@ == name@,
            entry.path == path,
            entry.is_dir == is_dir,
            entry.is_symlink == is_symlink,
            entry.modified == modified,
    {
        Entry { name: Rc::new(name), path: Rc::new(path), is_dir, is_symlink, modified }
    }

    /// The file name followed by `/` for a directory and `@` for a symbolic link.
    pub fn display_name(&self) -> (shown: String)
        ensures
            shown@ == display_name_of(*self),
    {
        let mut name = lossy(self.name.as_slice());
        if self.is_dir {
            push_char(&mut name, '/');
        }
        if self.is_symlink {
            push_char(&mut name, '@');
        }
        name
    }
}

/// What a listing is ordered by.
#[derive(Clone, Copy, Debug, PartialEq, Eq, Structural)]
pub enum SortMode {
    Name,
    Modified,
}

impl SortMode {
    /// The word shown for the order.
    pub fn label(self) -> (word: &'static str)
        ensures
            word@ == (match self {
                SortMode::Name => "name"@,
                SortMode::Modified => "time"@,
            }),
    {
        match self {
            SortMode::Name => "name",
            SortMode::Modified => "time",
        }
    }

    /// The other order: name and time alternate.
    pub fn next(self) -> (other: Self)
        ensures
            other != self,
    {
        match self {
            SortMode::Name => SortMode::Modified,
            SortMode::Modified => SortMode::Name,
        }
    }
}

/// Which way a listing runs.
#[derive(Clone, Copy, Debug, PartialEq, Eq, Structural)]
pub enum SortDirection {
    Ascending,
    Descending,
}

impl SortDirection {
    /// The arrow shown for the direction.
    pub fn symbol(self) -> (arrow: &'static str)
        ensures
            arrow@ == (match self {
                SortDirection::Ascending => "↑"@,
                SortDirection::Descending => "↓"@,
            }),
    {
        match self {
            SortDirection::Ascending => "↑",
            SortDirection::Descending => "↓",
        }
    }

    /// The other direction.
    pub fn opposite(self) -> (other: Self)
        ensures
            other != self,
    {
        match self {
            SortDirection::Ascending => SortDirection::Descending,
            SortDirection::Descending => SortDirection::Ascending,
        }
    }
}

/// A name is hidden when it starts with a dot.
pub open spec fn is_hidden_name(name: Seq<char>) -> bool {
    name.len() > 0 && name[0] == '.'
}

/// Whether the file name, read as text, starts with a dot.
pub fn is_hidden(name: &[u8]) -> (hidden: bool)
    ensures
        hidden == is_hidden_name(lossy_text(name@)),
{
    let text = lossy(name);
    let chars = chars_of(text.as_str());
    chars.len() > 0 && chars[0] == '.'
}

/// Whether `c` precedes `d` by code point.
pub fn char_precedes(c: char, d: char) -> (before: bool)
    ensures
        before == char_before(c, d),
{
    (c as u32) < (d as u32)
}

proof fn lemma_lex_skip(a: Seq<char>, b: Seq<char>, i: int)
    requires
        0 <= i < a.len(),
        i < b.len(),
        a[i] == b[i],
    ensures
        lex_order(a.skip(i), b.skip(i)) == lex_order(a.skip(i + 1), b.skip(i + 1)),
{
    assert(a.skip(i).drop_first() =~= a.skip(i + 1));
    assert(b.skip(i).drop_first() =~= b.skip(i + 1));
}

/// The lexicographic order of two character sequences.
pub fn compare_chars(a: &Vec<char>, b: &Vec<char>) -> (order: Rank)
    ensures
        order == lex_order(a@, b@),
{
    let mut i: usize = 0;
    assert(a@.skip(0) =~= a@);
    assert(b@.skip(0) =~= b@);
    while i < a.len() && i < b.len()
        invariant
            i <= a@.len(),
            i <= b@.len(),
            lex_order(a@, b@) == lex_order(a@.skip(i as int), b@.skip(i as int)),
        decreases a@.len() - i,
    {
        if char_precedes(a[i], b[i]) {
            return Rank::Before;
        }
        if char_precedes(b[i], a[i]) {
            return Rank::After;
        }
        proof {
            crate::order::lemma_char_before_total(a@[i as int], b@[i as int]);
            lemma_lex_skip(a@, b@, i as int);
        }
        i += 1;
    }
    if i < b.len() {
        Rank::Before
    } else if i < a.len() {
        Rank::After
    } else {
        Rank::Same
    }
}

proof fn lemma_byte_skip(a: Seq<u8>, b: Seq<u8>, i: int)
    requires
        0 <= i < a.len(),
        i < b.len(),
        a[i] == b[i],
    ensures
        byte_order(a.skip(i), b.skip(i)) == byte_order(a.skip(i + 1), b.skip(i + 1)),
{
    assert(a.skip(i).drop_first() =~= a.skip(i + 1));
    assert(b.skip(i).drop_first() =~= b.skip(i + 1));
}

/// The lexicographic order of two byte sequences.
pub fn compare_bytes(a: &Vec<u8>, b: &Vec<u8>) -> (order: Rank)
    ensures
        order == byte_order(a@, b@),
{
    let mut i: usize = 0;
    assert(a@.skip(0) =~= a@);
    assert(b@.skip(0) =~= b@);
    while i < a.len() && i < b.len()
        invariant
            i <= a@.len(),
            i <= b@.len(),
            byte_order(a@, b@) == byte_order(a@.skip(i as int), b@.skip(i as int)),
        decreases a@.len() - i,
    {
        if a[i] < b[i] {
            return Rank::Before;
        }
        if b[i] < a[i] {
            return Rank::After;
        }
        proof {
            lemma_byte_skip(a@, b@, i as int);
        }
        i += 1;
    }
    if i < b.len() {
        Rank::Before
    } else if i < a.len() {
        Rank::After
    } else {
        Rank::Same
    }
}

/// Whether two byte sequences are equal.
pub fn bytes_equal(a: &Vec<u8>, b: &Vec<u8>) -> (equal: bool)
    ensures
        equal == (a@ == b@),
{
    if a.len() != b.len() {
        return false;
    }
    let mut i: usize = 0;
    while i < a.len()
        invariant
            a@.len() == b@.len(),
            i <= a@.len(),
            forall|j: int| 0 <= j < i ==> a@[j] == b@[j],
        decreases a@.len() - i,
    {
        if a[i] != b[i] {
            return false;
        }
        i += 1;
    }
    assert(a@ =~= b@);
    true
}

/// The characters of an entry's name and of its lowercase form, computed
/// once so that a sort compares them without recomputing.
struct SortKey {
    lower: Vec<char>,
    name: Vec<u8>,
}

/// `key` holds the bytes of `e`'s name and its lowercase text.
spec fn key_of(key: SortKey, e: Entry) -> bool {
    key.lower@ == folded_name(e) && key.name@ == e.name@
}

/// The sort key of an entry.
fn sort_key(e: &Entry) -> (key: SortKey)
    ensures
        key_of(key, *e),
{
    let lower = to_lowercase(lossy(e.name.as_slice()).as_str());
    SortKey { lower: chars_of(lower.as_str()), name: (*e.name).clone() }
}

/// `order` read in the given direction.
pub fn direct_rank(order: Rank, direction: SortDirection) -> (directed_order: Rank)
    ensures
        directed_order == directed(order, direction),
{
    match direction {
        SortDirection::Ascending => order,
        SortDirection::Descending => match order {
            Rank::Before => Rank::After,
            Rank::Same => Rank::Same,
            Rank::After => Rank::Before,
        },
    }
}

fn compare_keyed_names(ka: &SortKey, kb: &SortKey, a: &Entry, b: &Entry) -> (order: Rank)
    requires
        key_of(*ka, *a),
        key_of(*kb, *b),
    ensures
        order == name_order(*a, *b),
{
    match compare_chars(&ka.lower, &kb.lower) {
        Rank::Same => compare_bytes(&ka.name, &kb.name),
        other => other,
    }
}

fn compare_times(x: i128, y: i128) -> (order: Rank)
    ensures
        order == int_order(x, y),
{
    if x < y {
        Rank::Before
    } else if y < x {
        Rank::After
    } else {
        Rank::Same
    }
}

fn compare_keyed(
    a: &Entry,
    ka: &SortKey,
    b: &Entry,
    kb: &SortKey,
    mode: SortMode,
    direction: SortDirection,
) -> (order: Rank)
    requires
        key_of(*ka, *a),
        key_of(*kb, *b),
    ensures
        order == entry_order(*a, *b, mode, direction),
{
    if a.is_dir && !b.is_dir {
        return Rank::Before;
    }
    if !a.is_dir && b.is_dir {
        return Rank::After;
    }
    match mode {
        SortMode::Name => direct_rank(compare_keyed_names(ka, kb, a, b), direction),
        SortMode::Modified => match (a.modified, b.modified) {
            (Some(x), Some(y)) => {
                let by_time = match compare_times(x, y) {
                    Rank::Same => compare_keyed_names(ka, kb, a, b),
                    other => other,
                };
                direct_rank(by_time, direction)
            },
            (Some(_), None) => Rank::Before,
            (None, Some(_)) => Rank::After,
            (None, None) => direct_rank(compare_keyed_names(ka, kb, a, b), direction),
        },
    }
}

/// A rank as the standard library's comparison outcome.
pub open spec fn ordering_of(r: Rank) -> Ordering {
    match r {
        Rank::Before => Ordering::Less,
        Rank::Same => Ordering::Equal,
        Rank::After => Ordering::Greater,
    }
}

/// The standard library's comparison outcome as a rank.
pub open spec fn rank_of(o: Ordering) -> Rank {
    match o {
        Ordering::Less => Rank::Before,
        Ordering::Equal => Rank::Same,
        Ordering::Greater => Rank::After,
    }
}

fn to_ordering(r: Rank) -> (o: Ordering)
    ensures
        o == ordering_of(r),
{
    match r {
        Rank::Before => Ordering::Less,
        Rank::Same => Ordering::Equal,
        Rank::After => Ordering::Greater,
    }
}

fn to_rank(o: Ordering) -> (r: Rank)
    ensures
        r == rank_of(o),
{
    match o {
        Ordering::Less => Rank::Before,
        Ordering::Equal => Rank::Same,
        Ordering::Greater => Rank::After,
    }
}

/// `order` read in the given direction: reversed when descending.
pub fn apply_direction(order: Ordering, sort_direction: SortDirection) -> (directed_order: Ordering)
    ensures
        directed_order == ordering_of(directed(rank_of(order), sort_direction)),
{
    to_ordering(direct_rank(to_rank(order), sort_direction))
}

/// Names compared case-insensitively, then exactly.
pub fn compare_names(left: &Entry, right: &Entry) -> (order: Ordering)
    ensures
        order == ordering_of(name_order(*left, *right)),
{
    let kl = sort_key(left);
    let kr = sort_key(right);
    to_ordering(compare_keyed_names(&kl, &kr, left, right))
}

/// The listing order of two entries.
pub fn compare_entries(
    left: &Entry,
    right: &Entry,
    sort_mode: SortMode,
    sort_direction: SortDirection,
) -> (order: Ordering)
    ensures
        order == ordering_of(entry_order(*left, *right, sort_mode, sort_direction)),
{
    let kl = sort_key(left);
    let kr = sort_key(right);
    to_ordering(compare_keyed(left, &kl, right, &kr, sort_mode, sort_direction))
}

/// The names in the listing differ pairwise, as in a directory.
pub open spec fn distinct_entry_names(s: Seq<Entry>) -> bool {
    forall|i: int, j: int| 0 <= i < s.len() && 0 <= j < s.len() && i != j ==> #[trigger] s[i].name@ != #[trigger] s[j].name@
}

/// The listing order leaves nothing open: two listings of the same entries
/// in that order, where names differ, are the same listing.
pub proof fn lemma_listing_order_unique(a: Seq<Entry>, b: Seq<Entry>, mode: SortMode, direction: SortDirection)
    requires
        is_listing_order(a, mode, direction),
        is_listing_order(b, mode, direction),
        a.to_multiset() == b.to_multiset(),
        distinct_entry_names(a),
    ensures
        a == b,
    decreases a.len(),
{
    broadcast use vstd::seq_lib::group_to_multiset_ensures;

    if a.len() == 0 {
        assert(b.to_multiset().len() == 0);
        assert(b.len() == 0);
        assert(a =~= b);
    } else {
        assert(a.to_multiset().len() == a.len());
        assert(b.to_multiset().len() == b.len());
        assert(b.len() == a.len());
        let x = a[0];
        let y = b[0];
        assert(a.to_multiset().count(x) > 0);
        assert(b.contains(x));
        let k = choose|k: int| 0 <= k < b.len() && b[k] == x;
        assert(b.to_multiset().count(y) > 0);
        assert(a.contains(y));
        let m = choose|m: int| 0 <= m < a.len() && a[m] == y;
        if m != 0 {
            assert(listed_before(a[0], a[m], mode, direction));
            if k != 0 {
                assert(listed_before(b[0], b[k], mode, direction));
                lemma_entry_order_flip(x, y, mode, direction);
                lemma_entry_order_equal(y, x, mode, direction);
            }
            assert(a[m].name@ == a[0].name@);
        }
        assert(x == y);
        assert(a.drop_first() =~= a.remove(0));
        assert(b.drop_first() =~= b.remove(0));
        assert(a.drop_first().to_multiset() == b.drop_first().to_multiset());
        assert(is_listing_order(a.drop_first(), mode, direction)) by {
            assert forall|i: int, j: int| 0 <= i < j < a.drop_first().len() implies #[trigger] listed_before(
                a.drop_first()[i],
                a.drop_first()[j],
                mode,
                direction,
            ) by {
                assert(listed_before(a[i + 1], a[j + 1], mode, direction));
            }
        }
        assert(is_listing_order(b.drop_first(), mode, direction)) by {
            assert forall|i: int, j: int| 0 <= i < j < b.drop_first().len() implies #[trigger] listed_before(
                b.drop_first()[i],
                b.drop_first()[j],
                mode,
                direction,
            ) by {
                assert(listed_before(b[i + 1], b[j + 1], mode, direction));
            }
        }
        assert(distinct_entry_names(a.drop_first())) by {
            assert forall|i: int, j: int|
                0 <= i < a.drop_first().len() && 0 <= j < a.drop_first().len() && i != j implies #[trigger] a.drop_first()[i].name@
                != #[trigger] a.drop_first()[j].name@ by {
                assert(a[i + 1].name@ != a[j + 1].name@);
            }
        }
        lemma_listing_order_unique(a.drop_first(), b.drop_first(), mode, direction);
        assert(a =~= b) by {
            assert forall|i: int| 0 <= i < a.len() implies a[i] == b[i] by {
                if i > 0 {
                    assert(a[i] == a.drop_first()[i - 1]);
                    assert(b[i] == b.drop_first()[i - 1]);
                }
            }
        }
    }
}

/// Sorts `entries` into the listing order: the result is a reordering of
/// the input that follows the order, the only one where names differ
/// (`lemma_listing_order_unique`).
pub fn sort_entries(entries: &mut Vec<Entry>, sort_mode: SortMode, sort_direction: SortDirection)
    ensures
        is_listing_order(final(entries)@, sort_mode, sort_direction),
        final(entries)@.to_multiset() == old(entries)@.to_multiset(),
{
    let mut input: Vec<Entry> = Vec::new();
    std::mem::swap(&mut input, entries);
    let mut out: Vec<Entry> = Vec::new();
    let mut keys: Vec<SortKey> = Vec::new();
    let n = input.len();
    let mut i: usize = 0;
    while i < n
        invariant
            n == input@.len(),
            i <= n,
            out@.len() == keys@.len(),
            forall|k: int| 0 <= k < out@.len() ==> key_of(#[trigger] keys@[k], out@[k]),
            is_listing_order(out@, sort_mode, sort_direction),
            out@.to_multiset() == input@.take(i as int).to_multiset(),
        decreases n - i,
    {
        let e = input[i].clone();
        let k = sort_key(&e);
        let mut lo: usize = 0;
        let mut hi: usize = out.len();
        while lo < hi
            invariant
                0 <= lo <= hi <= out@.len(),
                out@.len() == keys@.len(),
                forall|q: int| 0 <= q < out@.len() ==> key_of(#[trigger] keys@[q], out@[q]),
                key_of(k, e),
                is_listing_order(out@, sort_mode, sort_direction),
                forall|q: int|
                    0 <= q < lo ==> #[trigger] entry_order(e, out@[q], sort_mode, sort_direction)
                        != Rank::Before,
                forall|q: int|
                    hi <= q < out@.len() ==> #[trigger] entry_order(e, out@[q], sort_mode, sort_direction)
                        == Rank::Before,
            decreases hi - lo,
        {
            let mid = lo + (hi - lo) / 2;
            let o = compare_keyed(&e, &k, &out[mid], &keys[mid], sort_mode, sort_direction);
            if o == Rank::Before {
                proof {
                    assert forall|q: int| mid <= q < out@.len() implies #[trigger] entry_order(
                        e,
                        out@[q],
                        sort_mode,
                        sort_direction,
                    ) == Rank::Before by {
                        if q > mid {
                            assert(listed_before(out@[mid as int], out@[q], sort_mode, sort_direction));
                            lemma_less_then_listed(e, out@[mid as int], out@[q], sort_mode, sort_direction);
                        }
                    }
                }
                hi = mid;
            } else {
                proof {
                    assert forall|q: int| 0 <= q <= mid implies #[trigger] entry_order(
                        e,
                        out@[q],
                        sort_mode,
                        sort_direction,
                    ) != Rank::Before by {
                        if q < mid {
                            assert(listed_before(out@[q], out@[mid as int], sort_mode, sort_direction));
                            lemma_not_less_before(e, out@[q], out@[mid as int], sort_mode, sort_direction);
                        }
                    }
                }
                lo = mid + 1;
            }
        }
        let ghost before = out@;
        let ghost keys_before = keys@;
        proof {
            assert forall|a: int, b: int|
                0 <= a < b < before.len() + 1 implies #[trigger] listed_before(
                before.insert(lo as int, e)[a],
                before.insert(lo as int, e)[b],
                sort_mode,
                sort_direction,
            ) by {
                let s = before.insert(lo as int, e);
                if a < lo && b == lo {
                    lemma_entry_order_flip(e, before[a], sort_mode, sort_direction);
                } else if a == lo {
                    assert(entry_order(e, before[b - 1], sort_mode, sort_direction) == Rank::Before);
                } else if a < lo && b < lo {
                    assert(listed_before(before[a], before[b], sort_mode, sort_direction));
                } else if a < lo {
                    assert(listed_before(before[a], before[b - 1], sort_mode, sort_direction));
                } else {
                    assert(listed_before(before[a - 1], before[b - 1], sort_mode, sort_direction));
                }
            }
            assert(input@.take(i + 1) =~= input@.take(i as int).push(input@[i as int]));
        }
        out.insert(lo, e);
        keys.insert(lo, k);
        proof {
            assert forall|q: int| 0 <= q < out@.len() implies key_of(#[trigger] keys@[q], out@[q]) by {
                if q > lo {
                    assert(keys@[q] == keys_before[q - 1]);
                    assert(out@[q] == before[q - 1]);
                }
            }
        }
        i += 1;
    }
    proof {
        assert(input@.take(n as int) =~= input@);
    }
    *entries = out;
}

/// An entry is shown when hidden entries are shown or its name is not hidden.
pub open spec fn is_shown(e: Entry, show_hidden: bool) -> bool {
    show_hidden || !is_hidden_name(lossy_text(e.name@))
}

/// The entries that are shown.
pub open spec fn shown_entries(raw: Seq<Entry>, show_hidden: bool) -> Seq<Entry> {
    raw.filter(|e: Entry| is_shown(e, show_hidden))
}

/// Drops hidden entries unless they are shown.
pub fn keep_shown(raw: &Vec<Entry>, show_hidden: bool) -> (shown: Vec<Entry>)
    ensures
        shown@ == shown_entries(raw@, show_hidden),
{
    let mut out: Vec<Entry> = Vec::new();
    let n = raw.len();
    let mut i: usize = 0;
    while i < n
        invariant
            n == raw@.len(),
            i <= n,
            out@ == raw@.take(i as int).filter(|e: Entry| is_shown(e, show_hidden)),
        decreases n - i,
    {
        proof {
            reveal_with_fuel(Seq::<_>::filter, 1);
            assert(raw@.take(i + 1).drop_last() =~= raw@.take(i as int));
        }
        if show_hidden || !is_hidden(raw[i].name.as_slice()) {
            out.push(raw[i].clone());
        }
        i += 1;
    }
    proof {
        assert(raw@.take(n as int) =~= raw@);
    }
    out
}

/// An entry matches a lowercase query when the query occurs in the
/// lowercase form of its name.
pub open spec fn matches_query(e: Entry, query: Seq<char>) -> bool {
    occurs_in(query, folded_name(e))
}

/// The entries that match a lowercase query; all of them for an empty query.
pub open spec fn filtered_entries(all: Seq<Entry>, query: Seq<char>) -> Seq<Entry> {
    if query.len() == 0 {
        all
    } else {
        all.filter(|e: Entry| matches_query(e, query))
    }
}

/// The filter keeps exactly the listed entries that match.
pub proof fn lemma_filtered_contains(all: Seq<Entry>, query: Seq<char>, e: Entry)
    ensures
        filtered_entries(all, query).contains(e) <==> (all.contains(e) && (query.len() == 0
            || matches_query(e, query))),
{
    broadcast use vstd::seq_lib::group_filter_ensures;
    broadcast use vstd::seq::Seq::lemma_filter_contains_rev;

    if query.len() > 0 {
        let kept = filtered_entries(all, query);
        if kept.contains(e) {
            let k = choose|k: int| 0 <= k < kept.len() && kept[k] == e;
            assert(matches_query(kept[k], query));
        }
        if all.contains(e) && matches_query(e, query) {
            let k = choose|k: int| 0 <= k < all.len() && all[k] == e;
            assert(kept.contains(all[k]));
        }
    }
}

/// The entries whose lowercase name contains the lowercase `query`.
pub fn filter_entries(all: &Vec<Entry>, query: &Vec<char>) -> (kept: Vec<Entry>)
    ensures
        kept@ == filtered_entries(all@, query@),
{
    if query.len() == 0 {
        return clone_entries(all);
    }
    let mut out: Vec<Entry> = Vec::new();
    let n = all.len();
    let mut i: usize = 0;
    while i < n
        invariant
            n == all@.len(),
            i <= n,
            out@ == all@.take(i as int).filter(|e: Entry| matches_query(e, query@)),
        decreases n - i,
    {
        proof {
            reveal_with_fuel(Seq::<_>::filter, 1);
            assert(all@.take(i + 1).drop_last() =~= all@.take(i as int));
        }
        let lower = to_lowercase(lossy(all[i].name.as_slice()).as_str());
        let chars = chars_of(lower.as_str());
        if contains_chars(&chars, query) {
            out.push(all[i].clone());
        }
        i += 1;
    }
    proof {
        assert(all@.take(n as int) =~= all@);
    }
    out
}

/// A copy of a list of entries.
pub fn clone_entries(entries: &Vec<Entry>) -> (copy: Vec<Entry>)
    ensures
        copy@ == entries@,
{
    let copy = entries.clone();
    proof {
        assert forall|i: int| 0 <= i < entries@.len() implies copy@[i] == entries@[i] by {
            assert(vstd::pervasive::cloned::<Entry>(entries@[i], copy@[i]));
        }
        assert(copy@ =~= entries@);
    }
    copy
}

/// `i` is the position of the first entry called `name`.
pub open spec fn is_first_named(entries: Seq<Entry>, name: Seq<u8>, i: int) -> bool {
    0 <= i < entries.len() && entries[i].name@ == name && forall|j: int|
        0 <= j < i ==> #[trigger] entries[j].name@ != name
}

/// The position of the first entry called `name`, if there is one.
pub open spec fn first_named(entries: Seq<Entry>, name: Seq<u8>) -> Option<int> {
    if exists|i: int| is_first_named(entries, name, i) {
        Some(choose|i: int| is_first_named(entries, name, i))
    } else {
        None
    }
}

/// Finds the first entry called `name`.
pub fn position_of_name(entries: &Vec<Entry>, name: &Vec<u8>) -> (found: Option<usize>)
    ensures
        match found {
            Some(i) => first_named(entries@, name@) == Some(i as int),
            None => first_named(entries@, name@) is None,
        },
{
    let mut i: usize = 0;
    while i < entries.len()
        invariant
            i <= entries@.len(),
            forall|j: int| 0 <= j < i ==> #[trigger] entries@[j].name@ != name@,
        decreases entries@.len() - i,
    {
        if bytes_equal(&*entries[i].name, name) {
            proof {
                assert(is_first_named(entries@, name@, i as int));
                let c = choose|c: int| is_first_named(entries@, name@, c);
                assert(c == i);
            }
            return Some(i);
        }
        i += 1;
    }
    proof {
        assert forall|c: int| !is_first_named(entries@, name@, c) by {
            if 0 <= c < entries@.len() {
                assert(entries@[c].name@ != name@);
            }
        }
    }
    None
}

} // verus!
