//! The order in which directory entries are listed, and its laws.

use crate::listing::{Entry, SortDirection, SortMode};
use vstd::prelude::*;

verus! {

/// The outcome of comparing two things for a listing.
#[derive(Clone, Copy, Debug, PartialEq, Eq, Structural)]
pub enum Rank {
    Before,
    Same,
    After,
}

/// Whether character `a` precedes character `b` by code point.
pub open spec fn char_before(a: char, b: char) -> bool {
    (a as u32) < (b as u32)
}

/// The opposite outcome of a comparison.
pub open spec fn flipped(o: Rank) -> Rank {
    match o {
        Rank::Before => Rank::After,
        Rank::Same => Rank::Same,
        Rank::After => Rank::Before,
    }
}

/// `first`, or `second` where `first` is a tie.
pub open spec fn then_order(first: Rank, second: Rank) -> Rank {
    if first == Rank::Same {
        second
    } else {
        first
    }
}

/// Lexicographic order of character sequences by code point, which is the
/// order of Rust strings (and of the UTF-8 bytes that encode them).
pub open spec fn lex_order(a: Seq<char>, b: Seq<char>) -> Rank
    decreases a.len(),
{
    if a.len() == 0 {
        if b.len() == 0 {
            Rank::Same
        } else {
            Rank::Before
        }
    } else if b.len() == 0 {
        Rank::After
    } else if char_before(a[0], b[0]) {
        Rank::Before
    } else if char_before(b[0], a[0]) {
        Rank::After
    } else {
        lex_order(a.drop_first(), b.drop_first())
    }
}

/// Lexicographic order of byte sequences, the order of names as the file
/// system spells them.
pub open spec fn byte_order(a: Seq<u8>, b: Seq<u8>) -> Rank
    decreases a.len(),
{
    if a.len() == 0 {
        if b.len() == 0 {
            Rank::Same
        } else {
            Rank::Before
        }
    } else if b.len() == 0 {
        Rank::After
    } else if a[0] < b[0] {
        Rank::Before
    } else if b[0] < a[0] {
        Rank::After
    } else {
        byte_order(a.drop_first(), b.drop_first())
    }
}

/// The order of two integers.
pub open spec fn int_order(a: i128, b: i128) -> Rank {
    if a < b {
        Rank::Before
    } else if b < a {
        Rank::After
    } else {
        Rank::Same
    }
}

/// `order` read in the given direction.
pub open spec fn directed(order: Rank, direction: SortDirection) -> Rank {
    match direction {
        SortDirection::Ascending => order,
        SortDirection::Descending => flipped(order),
    }
}

/// Names compare case-insensitively first, and by their exact characters
/// where they differ only in case.
pub open spec fn name_order(a: Entry, b: Entry) -> Rank {
    then_order(
        lex_order(folded_name(a), folded_name(b)),
        byte_order(a.name@, b.name@),
    )
}

/// An entry's name as text, in lowercase: what names are compared by first.
pub open spec fn folded_name(e: Entry) -> Seq<char> {
    crate::text::lowercase(crate::text::lossy_text(e.name@))
}

/// The listing order: directories before files; then by name, or by
/// modification time with the name breaking ties, in the chosen direction.
/// Under the time order, entries without a time come after those with one
/// whichever the direction.
pub open spec fn entry_order(a: Entry, b: Entry, mode: SortMode, direction: SortDirection) -> Rank {
    if a.is_dir && !b.is_dir {
        Rank::Before
    } else if !a.is_dir && b.is_dir {
        Rank::After
    } else {
        match mode {
            SortMode::Name => directed(name_order(a, b), direction),
            SortMode::Modified => match (a.modified, b.modified) {
                (Some(x), Some(y)) => directed(then_order(int_order(x, y), name_order(a, b)), direction),
                (Some(_), None) => Rank::Before,
                (None, Some(_)) => Rank::After,
                (None, None) => directed(name_order(a, b), direction),
            },
        }
    }
}

/// `a` may stand before `b` in a listing.
pub open spec fn listed_before(a: Entry, b: Entry, mode: SortMode, direction: SortDirection) -> bool {
    entry_order(a, b, mode, direction) != Rank::After
}

/// Every entry may stand before every later one.
pub open spec fn is_listing_order(s: Seq<Entry>, mode: SortMode, direction: SortDirection) -> bool {
    forall|i: int, j: int|
        0 <= i < j < s.len() ==> #[trigger] listed_before(s[i], s[j], mode, direction)
}

pub proof fn lemma_char_before_total(a: char, b: char)
    ensures
        !char_before(a, b) && !char_before(b, a) ==> a == b,
{
}

/// Swapping the sides of `lex_order` flips its outcome.
pub proof fn lemma_lex_flip(a: Seq<char>, b: Seq<char>)
    ensures
        lex_order(b, a) == flipped(lex_order(a, b)),
    decreases a.len(),
{
    if a.len() > 0 && b.len() > 0 && !char_before(a[0], b[0]) && !char_before(b[0], a[0]) {
        lemma_lex_flip(a.drop_first(), b.drop_first());
    }
}

/// `lex_order` ties exactly on equal sequences.
pub proof fn lemma_lex_equal(a: Seq<char>, b: Seq<char>)
    ensures
        (lex_order(a, b) == Rank::Same) == (a == b),
    decreases a.len(),
{
    if a.len() > 0 && b.len() > 0 {
        lemma_char_before_total(a[0], b[0]);
        if !char_before(a[0], b[0]) && !char_before(b[0], a[0]) {
            lemma_lex_equal(a.drop_first(), b.drop_first());
            if a.drop_first() == b.drop_first() {
                assert(a =~= seq![a[0]] + a.drop_first());
                assert(b =~= seq![b[0]] + b.drop_first());
            }
        } else {
            assert(a[0] != b[0]);
        }
        if a == b {
            assert(a.drop_first() == b.drop_first());
        }
    } else if a.len() == 0 && b.len() == 0 {
        assert(a =~= b);
    } else {
        assert(a.len() != b.len());
    }
}

/// `lex_order` is transitive on strict precedence.
pub proof fn lemma_lex_less_trans(a: Seq<char>, b: Seq<char>, c: Seq<char>)
    requires
        lex_order(a, b) == Rank::Before,
        lex_order(b, c) == Rank::Before,
    ensures
        lex_order(a, c) == Rank::Before,
    decreases a.len(),
{
    if a.len() > 0 && b.len() > 0 && c.len() > 0 {
        lemma_char_before_total(a[0], b[0]);
        lemma_char_before_total(b[0], c[0]);
        if !char_before(a[0], b[0]) && !char_before(b[0], a[0]) && !char_before(b[0], c[0])
            && !char_before(c[0], b[0]) {
            lemma_lex_less_trans(a.drop_first(), b.drop_first(), c.drop_first());
        }
    }
}

/// Swapping the sides of `byte_order` flips its outcome.
pub proof fn lemma_byte_flip(a: Seq<u8>, b: Seq<u8>)
    ensures
        byte_order(b, a) == flipped(byte_order(a, b)),
    decreases a.len(),
{
    if a.len() > 0 && b.len() > 0 && a[0] == b[0] {
        lemma_byte_flip(a.drop_first(), b.drop_first());
    }
}

/// `byte_order` ties exactly on equal sequences.
pub proof fn lemma_byte_equal(a: Seq<u8>, b: Seq<u8>)
    ensures
        (byte_order(a, b) == Rank::Same) == (a == b),
    decreases a.len(),
{
    if a.len() > 0 && b.len() > 0 {
        if a[0] == b[0] {
            lemma_byte_equal(a.drop_first(), b.drop_first());
            if a.drop_first() == b.drop_first() {
                assert(a =~= seq![a[0]] + a.drop_first());
                assert(b =~= seq![b[0]] + b.drop_first());
            }
        }
        if a == b {
            assert(a.drop_first() == b.drop_first());
        }
    } else if a.len() == 0 && b.len() == 0 {
        assert(a =~= b);
    } else {
        assert(a.len() != b.len());
    }
}

/// `byte_order` is transitive on strict precedence.
pub proof fn lemma_byte_less_trans(a: Seq<u8>, b: Seq<u8>, c: Seq<u8>)
    requires
        byte_order(a, b) == Rank::Before,
        byte_order(b, c) == Rank::Before,
    ensures
        byte_order(a, c) == Rank::Before,
    decreases a.len(),
{
    if a.len() > 0 && b.len() > 0 && c.len() > 0 && a[0] == b[0] && b[0] == c[0] {
        lemma_byte_less_trans(a.drop_first(), b.drop_first(), c.drop_first());
    }
}

proof fn lemma_name_order(a: Entry, b: Entry, c: Entry)
    ensures
        name_order(b, a) == flipped(name_order(a, b)),
        (name_order(a, b) == Rank::Same) == (a.name@ == b.name@),
        name_order(a, b) == Rank::Before && name_order(b, c) == Rank::Before ==> name_order(a, c)
            == Rank::Before,
{
    let (la, lb, lc) = (folded_name(a), folded_name(b), folded_name(c));
    lemma_lex_flip(la, lb);
    lemma_byte_flip(a.name@, b.name@);
    lemma_lex_equal(la, lb);
    lemma_lex_equal(lb, lc);
    lemma_lex_equal(la, lc);
    lemma_byte_equal(a.name@, b.name@);
    if lex_order(la, lb) == Rank::Before && lex_order(lb, lc) == Rank::Before {
        lemma_lex_less_trans(la, lb, lc);
    }
    if byte_order(a.name@, b.name@) == Rank::Before && byte_order(b.name@, c.name@) == Rank::Before {
        lemma_byte_less_trans(a.name@, b.name@, c.name@);
    }
}

/// Swapping the sides of the listing order flips its outcome.
pub proof fn lemma_entry_order_flip(a: Entry, b: Entry, mode: SortMode, direction: SortDirection)
    ensures
        entry_order(b, a, mode, direction) == flipped(entry_order(a, b, mode, direction)),
{
    lemma_name_order(a, b, a);
}

/// The listing order ties only entries with the same name.
pub proof fn lemma_entry_order_equal(a: Entry, b: Entry, mode: SortMode, direction: SortDirection)
    ensures
        entry_order(a, b, mode, direction) == Rank::Same ==> a.name@ == b.name@,
{
    lemma_name_order(a, b, a);
}

/// "May stand before" is transitive.
pub proof fn lemma_listed_before_trans(a: Entry, b: Entry, c: Entry, mode: SortMode, direction: SortDirection)
    requires
        listed_before(a, b, mode, direction),
        listed_before(b, c, mode, direction),
    ensures
        listed_before(a, c, mode, direction),
{
    lemma_name_order(a, b, c);
    lemma_name_order(c, b, a);
    lemma_name_order(b, c, a);
    lemma_name_order(a, c, b);
    lemma_name_order(b, a, c);
    lemma_name_order(c, a, b);
}


/// An entry strictly after `e` keeps later entries strictly after `e`.
pub proof fn lemma_less_then_listed(e: Entry, x: Entry, y: Entry, mode: SortMode, direction: SortDirection)
    requires
        entry_order(e, x, mode, direction) == Rank::Before,
        listed_before(x, y, mode, direction),
    ensures
        entry_order(e, y, mode, direction) == Rank::Before,
{
    lemma_entry_order_flip(e, y, mode, direction);
    lemma_entry_order_flip(e, x, mode, direction);
    if entry_order(e, y, mode, direction) != Rank::Before {
        lemma_listed_before_trans(x, y, e, mode, direction);
    }
}

/// An entry not strictly after `e` keeps earlier entries not strictly after `e`.
pub proof fn lemma_not_less_before(e: Entry, x: Entry, y: Entry, mode: SortMode, direction: SortDirection)
    requires
        entry_order(e, y, mode, direction) != Rank::Before,
        listed_before(x, y, mode, direction),
    ensures
        entry_order(e, x, mode, direction) != Rank::Before,
{
    lemma_entry_order_flip(e, y, mode, direction);
    lemma_entry_order_flip(e, x, mode, direction);
    lemma_listed_before_trans(x, y, e, mode, direction);
}

} // verus!
