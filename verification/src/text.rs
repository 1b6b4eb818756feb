//! Character-level string operations with their specifications.

use vstd::prelude::*;

verus! {

/// The characters of `s`, in order.
pub fn chars_of(s: &str) -> (chars: Vec<char>)
    ensures
        chars@ == s@,
{
    let mut chars: Vec<char> = Vec::new();
    for c in it: s.chars()
        invariant
            chars@ == it.seq().take(it.index() as int),
            it.seq() == s@,
    {
        chars.push(c);
    }
    chars
}

/// Whether two strings hold the same characters.
pub fn str_eq(a: &str, b: &str) -> (equal: bool)
    ensures
        equal == (a@ == b@),
{
    let x = chars_of(a);
    let y = chars_of(b);
    seq_eq(&x, &y)
}

/// Whether two character vectors are equal.
pub fn seq_eq(x: &Vec<char>, y: &Vec<char>) -> (equal: bool)
    ensures
        equal == (x@ == y@),
{
    if x.len() != y.len() {
        return false;
    }
    let mut i: usize = 0;
    while i < x.len()
        invariant
            x@.len() == y@.len(),
            i <= x@.len(),
            x@.take(i as int) == y@.take(i as int),
        decreases x@.len() - i,
    {
        if x[i] != y[i] {
            assert(x@[i as int] != y@[i as int]);
            return false;
        }
        assert(x@.take(i + 1) == x@.take(i as int).push(x@[i as int]));
        assert(y@.take(i + 1) == y@.take(i as int).push(y@[i as int]));
        i += 1;
    }
    assert(x@ == x@.take(i as int));
    assert(y@ == y@.take(i as int));
    true
}


/// The lowercase form of `s` under Unicode's full case mapping, as
/// `str::to_lowercase` computes it.
pub uninterp spec fn lowercase(s: Seq<char>) -> Seq<char>;

/// Calls `str::to_lowercase`, whose result is the Unicode full lowercase
/// mapping of its argument: a function of the characters of `s` alone.
/// Every character maps to one or more characters, so the result is empty
/// exactly when `s` is.
#[verifier::external_body]
pub(crate) fn to_lowercase(s: &str) -> (lower: String)
    ensures
        lower@ == lowercase(s@),
        (lower@.len() == 0) == (s@.len() == 0),
{
    s.to_lowercase()
}

/// The text that `String::from_utf8_lossy` makes of the bytes: valid UTF-8
/// read as it is, each invalid sequence replaced by U+FFFD.
pub uninterp spec fn lossy_text(bytes: Seq<u8>) -> Seq<char>;

/// Calls `String::from_utf8_lossy`. Claimed: the result depends on the
/// bytes alone, and is what `lossy_text` names.
#[verifier::external_body]
pub(crate) fn lossy(bytes: &[u8]) -> (text: String)
    ensures
        text@ == lossy_text(bytes@),
{
    String::from_utf8_lossy(bytes).into_owned()
}

/// Calls `String::push`, which appends one character.
#[verifier::external_body]
pub(crate) fn push_char(s: &mut String, c: char)
    ensures
        final(s)@ == old(s)@.push(c),
{
    s.push(c)
}

/// Calls `String::pop`, which removes the last character, if any.
#[verifier::external_body]
pub(crate) fn pop_char(s: &mut String) -> (last: Option<char>)
    ensures
        old(s)@.len() > 0 ==> final(s)@ == old(s)@.drop_last() && last == Some(old(s)@.last()),
        old(s)@.len() == 0 ==> final(s)@ == old(s)@ && last is None,
{
    s.pop()
}

/// Whether `needle` occurs in `hay` as a contiguous run of characters.
pub open spec fn occurs_in(needle: Seq<char>, hay: Seq<char>) -> bool {
    exists|i: int| 0 <= i && i + needle.len() <= hay.len() && #[trigger] hay.subrange(i, i + needle.len()) == needle
}

/// Whether `needle` starts at position `at` of `hay`.
pub fn matches_at(needle: &Vec<char>, hay: &Vec<char>, at: usize) -> (found: bool)
    requires
        at + needle@.len() <= hay@.len(),
    ensures
        found == (hay@.subrange(at as int, at + needle@.len()) == needle@),
{
    let n = hay.len();
    let mut k: usize = 0;
    while k < needle.len()
        invariant
            n == hay@.len(),
            at + needle@.len() <= hay@.len(),
            k <= needle@.len(),
            forall|j: int| 0 <= j < k ==> hay@[at + j] == needle@[j],
        decreases needle@.len() - k,
    {
        if hay[at + k] != needle[k] {
            assert(hay@.subrange(at as int, at + needle@.len())[k as int] != needle@[k as int]);
            return false;
        }
        k += 1;
    }
    assert(hay@.subrange(at as int, at + needle@.len()) =~= needle@);
    true
}

/// Whether `needle` occurs in `hay`.
pub fn contains_chars(hay: &Vec<char>, needle: &Vec<char>) -> (found: bool)
    ensures
        found == occurs_in(needle@, hay@),
{
    if needle.len() > hay.len() {
        return false;
    }
    let last = hay.len() - needle.len();
    let mut at: usize = 0;
    loop
        invariant
            last + needle@.len() == hay@.len(),
            at <= last,
            forall|i: int| 0 <= i < at ==> #[trigger] hay@.subrange(i, i + needle@.len()) != needle@,
        decreases last - at,
    {
        if matches_at(needle, hay, at) {
            return true;
        }
        if at == last {
            return false;
        }
        at += 1;
    }
}


/// The ASCII lowercase form of one character: `A`-`Z` become `a`-`z`, all
/// other characters stay.
pub open spec fn ascii_lower(c: char) -> char {
    if 'A' <= c && c <= 'Z' {
        ((c as u8) + 32) as char
    } else {
        c
    }
}

/// ASCII lowercase of one character.
pub fn ascii_lower_char(c: char) -> (lower: char)
    ensures
        lower == ascii_lower(c),
{
    if 'A' <= c && c <= 'Z' {
        ((c as u8) + 32) as char
    } else {
        c
    }
}

/// The ASCII lowercase form of a string.
pub open spec fn ascii_lowercase(s: Seq<char>) -> Seq<char> {
    s.map_values(|c: char| ascii_lower(c))
}

/// Two strings are equal when ASCII case is ignored.
pub open spec fn eq_ignoring_ascii_case(a: Seq<char>, b: Seq<char>) -> bool {
    a.len() == b.len() && forall|i: int| 0 <= i < a.len() ==> ascii_lower(#[trigger] a[i]) == ascii_lower(b[i])
}

/// The ASCII lowercase form of `s`.
pub fn to_ascii_lowercase(s: &Vec<char>) -> (lower: Vec<char>)
    ensures
        lower@ == ascii_lowercase(s@),
{
    let mut out: Vec<char> = Vec::new();
    let mut i: usize = 0;
    while i < s.len()
        invariant
            i <= s@.len(),
            out@ == ascii_lowercase(s@.take(i as int)),
        decreases s@.len() - i,
    {
        out.push(ascii_lower_char(s[i]));
        proof {
            assert(ascii_lowercase(s@.take(i + 1)) =~= ascii_lowercase(s@.take(i as int)).push(ascii_lower(s@[i as int])));
        }
        i += 1;
    }
    proof {
        assert(s@.take(i as int) =~= s@);
    }
    out
}

/// Whether the two character sequences are equal when ASCII case is ignored.
pub fn chars_eq_ignore_ascii_case(a: &Vec<char>, b: &Vec<char>) -> (equal: bool)
    ensures
        equal == eq_ignoring_ascii_case(a@, b@),
{
    if a.len() != b.len() {
        return false;
    }
    let mut i: usize = 0;
    while i < a.len()
        invariant
            a@.len() == b@.len(),
            i <= a@.len(),
            forall|j: int| 0 <= j < i ==> ascii_lower(#[trigger] a@[j]) == ascii_lower(b@[j]),
        decreases a@.len() - i,
    {
        if ascii_lower_char(a[i]) != ascii_lower_char(b[i]) {
            return false;
        }
        i += 1;
    }
    true
}

/// Whether the two strings are equal when ASCII case is ignored.
pub fn eq_ignore_ascii_case(a: &str, b: &str) -> (equal: bool)
    ensures
        equal == eq_ignoring_ascii_case(a@, b@),
{
    chars_eq_ignore_ascii_case(&chars_of(a), &chars_of(b))
}

/// Unicode's White_Space property, which `char::is_whitespace` tests.
pub open spec fn is_white_space(c: char) -> bool {
    let n = c as u32;
    (0x09 <= n && n <= 0x0D) || n == 0x20 || n == 0x85 || n == 0xA0 || n == 0x1680 || (0x2000 <= n
        && n <= 0x200A) || n == 0x2028 || n == 0x2029 || n == 0x202F || n == 0x205F || n == 0x3000
}

/// Whether `c` has Unicode's White_Space property.
pub fn is_whitespace(c: char) -> (white: bool)
    ensures
        white == is_white_space(c),
{
    let n = c as u32;
    (0x09 <= n && n <= 0x0D) || n == 0x20 || n == 0x85 || n == 0xA0 || n == 0x1680 || (0x2000 <= n
        && n <= 0x200A) || n == 0x2028 || n == 0x2029 || n == 0x202F || n == 0x205F || n == 0x3000
}

/// `s` without its leading white space.
pub open spec fn trim_start(s: Seq<char>) -> Seq<char>
    decreases s.len(),
{
    if s.len() > 0 && is_white_space(s[0]) {
        trim_start(s.drop_first())
    } else {
        s
    }
}

/// `s` without its trailing white space.
pub open spec fn trim_end(s: Seq<char>) -> Seq<char>
    decreases s.len(),
{
    if s.len() > 0 && is_white_space(s.last()) {
        trim_end(s.drop_last())
    } else {
        s
    }
}

/// `s` without leading and trailing white space, as `str::trim` gives it.
pub open spec fn trimmed(s: Seq<char>) -> Seq<char> {
    trim_end(trim_start(s))
}

proof fn lemma_trim_start_skip(s: Seq<char>, i: int)
    requires
        0 <= i <= s.len(),
        forall|j: int| 0 <= j < i ==> is_white_space(#[trigger] s[j]),
    ensures
        trim_start(s) == trim_start(s.skip(i)),
    decreases i,
{
    if i > 0 {
        assert(s.drop_first().skip(i - 1) =~= s.skip(i));
        lemma_trim_start_skip(s.drop_first(), i - 1);
    } else {
        assert(s.skip(0) =~= s);
    }
}

proof fn lemma_trim_end_take(s: Seq<char>, k: int)
    requires
        0 <= k <= s.len(),
        forall|j: int| k <= j < s.len() ==> is_white_space(#[trigger] s[j]),
    ensures
        trim_end(s) == trim_end(s.take(k)),
    decreases s.len() - k,
{
    if k < s.len() {
        assert(s.drop_last().take(k) =~= s.take(k));
        lemma_trim_end_take(s.drop_last(), k);
    } else {
        assert(s.take(k) =~= s);
    }
}

/// The characters of `s` without leading and trailing white space.
pub fn trim_chars(s: &Vec<char>) -> (t: Vec<char>)
    ensures
        t@ == trimmed(s@),
{
    let n = s.len();
    let mut start: usize = 0;
    while start < n && is_whitespace(s[start])
        invariant
            n == s@.len(),
            start <= n,
            forall|j: int| 0 <= j < start ==> is_white_space(#[trigger] s@[j]),
        decreases n - start,
    {
        start += 1;
    }
    proof {
        lemma_trim_start_skip(s@, start as int);
    }
    let ghost rest = s@.skip(start as int);
    let mut end: usize = n;
    while end > start && is_whitespace(s[end - 1])
        invariant
            n == s@.len(),
            start <= end <= n,
            rest == s@.skip(start as int),
            forall|j: int| end <= j < n ==> is_white_space(#[trigger] s@[j]),
        decreases end,
    {
        end -= 1;
    }
    proof {
        assert forall|j: int| end - start <= j < rest.len() implies is_white_space(#[trigger] rest[j]) by {
            assert(rest[j] == s@[start + j]);
        }
        lemma_trim_end_take(rest, end - start);
        assert(trim_start(rest) == rest);
    }
    let mut out: Vec<char> = Vec::new();
    let mut i: usize = start;
    while i < end
        invariant
            start <= i <= end <= n,
            n == s@.len(),
            out@ == s@.subrange(start as int, i as int),
        decreases end - i,
    {
        out.push(s[i]);
        proof {
            assert(s@.subrange(start as int, i + 1) =~= s@.subrange(start as int, i as int).push(s@[i as int]));
        }
        i += 1;
    }
    proof {
        assert(rest.take(end - start) =~= s@.subrange(start as int, end as int));
    }
    out
}

/// Unicode's control characters (general category Cc), which
/// `char::is_control` tests.
pub open spec fn is_control_char(c: char) -> bool {
    let n = c as u32;
    n <= 0x1F || (0x7F <= n && n <= 0x9F)
}

/// Whether `c` is a control character.
pub fn is_control(c: char) -> (control: bool)
    ensures
        control == is_control_char(c),
{
    let n = c as u32;
    n <= 0x1F || (0x7F <= n && n <= 0x9F)
}

/// Whether `c` is an ASCII letter or digit.
pub open spec fn is_ascii_alnum(c: char) -> bool {
    ('a' <= c && c <= 'z') || ('A' <= c && c <= 'Z') || ('0' <= c && c <= '9')
}

/// Whether `c` is an ASCII character.
pub open spec fn is_ascii_char(c: char) -> bool {
    (c as u32) < 128
}

/// A string built from characters.
pub fn string_of(chars: &Vec<char>) -> (s: String)
    ensures
        s@ == chars@,
{
    let mut out = String::new();
    let mut i: usize = 0;
    while i < chars.len()
        invariant
            i <= chars@.len(),
            out@ == chars@.take(i as int),
        decreases chars@.len() - i,
    {
        push_char(&mut out, chars[i]);
        proof {
            assert(chars@.take(i + 1) =~= chars@.take(i as int).push(chars@[i as int]));
        }
        i += 1;
    }
    proof {
        assert(chars@.take(i as int) =~= chars@);
    }
    out
}

} // verus!
