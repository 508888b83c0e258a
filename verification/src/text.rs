//! Character-sequence helpers over the `Seq<char>` view of strings.

use vstd::prelude::*;
use vstd::utf8::{decode_utf8, is_ascii_chars, valid_utf8};

verus! {

/// `needle` stands in `hay` starting at position `i`.
pub open spec fn occurs_at(hay: Seq<char>, needle: Seq<char>, i: int) -> bool {
    &&& 0 <= i
    &&& i + needle.len() <= hay.len()
    &&& hay.subrange(i, i + needle.len()) == needle
}

/// `needle` is a contiguous part of `hay`.
pub open spec fn contains_seq(hay: Seq<char>, needle: Seq<char>) -> bool {
    exists|i: int| occurs_at(hay, needle, i)
}

/// `hay` begins with `prefix`.
pub open spec fn starts_with_seq(hay: Seq<char>, prefix: Seq<char>) -> bool {
    prefix.len() <= hay.len() && hay.take(prefix.len() as int) == prefix
}

/// `hay` ends with `suffix`.
pub open spec fn ends_with_seq(hay: Seq<char>, suffix: Seq<char>) -> bool {
    suffix.len() <= hay.len() && hay.skip(hay.len() - suffix.len()) == suffix
}

/// An ASCII capital letter.
pub open spec fn is_ascii_upper(c: char) -> bool {
    'A' <= c && c <= 'Z'
}

/// `c` with an ASCII capital letter turned into its small letter; any other character unchanged.
pub open spec fn ascii_lower(c: char) -> char {
    if is_ascii_upper(c) {
        ((c as u32) + 32) as char
    } else {
        c
    }
}

/// Every character of `s` put through `ascii_lower`.
pub open spec fn ascii_lower_seq(s: Seq<char>) -> Seq<char> {
    s.map_values(|c: char| ascii_lower(c))
}

/// Law: `needle` stands in `hay` at `i` exactly when the characters of `hay` from `i`
/// on are, one by one, those of `needle`.
pub proof fn law_occurs_at_is_window(hay: Seq<char>, needle: Seq<char>, i: int)
    ensures
        occurs_at(hay, needle, i) <==> (0 <= i && i + needle.len() <= hay.len() && forall|j: int|
            0 <= j < needle.len() ==> hay[i + j] == #[trigger] needle[j]),
{
    if 0 <= i && i + needle.len() <= hay.len() {
        if forall|j: int| 0 <= j < needle.len() ==> hay[i + j] == #[trigger] needle[j] {
            assert(hay.subrange(i, i + needle.len()) =~= needle);
        }
        if occurs_at(hay, needle, i) {
            assert forall|j: int| 0 <= j < needle.len() implies hay[i + j] == #[trigger] needle[j] by {
                assert(hay.subrange(i, i + needle.len())[j] == hay[i + j]);
            }
        }
    }
}

/// Law: `needle` is a contiguous part of `hay` exactly when some window of `hay` of
/// `needle`'s length equals `needle`.
pub proof fn law_contains_is_some_window(hay: Seq<char>, needle: Seq<char>)
    ensures
        contains_seq(hay, needle) <==> exists|i: int|
            0 <= i && i + needle.len() <= hay.len() && #[trigger] hay.skip(i).take(
                needle.len() as int,
            ) == needle,
{
    if contains_seq(hay, needle) {
        let i = choose|i: int| occurs_at(hay, needle, i);
        assert(hay.skip(i).take(needle.len() as int) =~= hay.subrange(i, i + needle.len()));
    }
    if exists|i: int|
        0 <= i && i + needle.len() <= hay.len() && #[trigger] hay.skip(i).take(
            needle.len() as int,
        ) == needle {
        let i = choose|i: int|
            0 <= i && i + needle.len() <= hay.len() && #[trigger] hay.skip(i).take(
                needle.len() as int,
            ) == needle;
        assert(hay.skip(i).take(needle.len() as int) =~= hay.subrange(i, i + needle.len()));
        assert(occurs_at(hay, needle, i));
    }
}

/// Law: `hay` begins with `prefix` exactly when its first characters are, one by one,
/// those of `prefix`.
pub proof fn law_starts_with_is_leading_chars(hay: Seq<char>, prefix: Seq<char>)
    ensures
        starts_with_seq(hay, prefix) <==> (prefix.len() <= hay.len() && forall|j: int|
            0 <= j < prefix.len() ==> hay[j] == #[trigger] prefix[j]),
{
    if prefix.len() <= hay.len() {
        if forall|j: int| 0 <= j < prefix.len() ==> hay[j] == #[trigger] prefix[j] {
            assert(hay.take(prefix.len() as int) =~= prefix);
        }
        if starts_with_seq(hay, prefix) {
            assert forall|j: int| 0 <= j < prefix.len() implies hay[j] == #[trigger] prefix[j] by {
                assert(hay.take(prefix.len() as int)[j] == hay[j]);
            }
        }
    }
}

/// Law: `hay` ends with `suffix` exactly when its last characters are, one by one, those
/// of `suffix`.
pub proof fn law_ends_with_is_trailing_chars(hay: Seq<char>, suffix: Seq<char>)
    ensures
        ends_with_seq(hay, suffix) <==> (suffix.len() <= hay.len() && forall|j: int|
            0 <= j < suffix.len() ==> hay[hay.len() - suffix.len() + j] == #[trigger] suffix[j]),
{
    if suffix.len() <= hay.len() {
        let start = hay.len() - suffix.len();
        if forall|j: int|
            0 <= j < suffix.len() ==> hay[hay.len() - suffix.len() + j] == #[trigger] suffix[j] {
            assert(hay.skip(start) =~= suffix);
        }
        if ends_with_seq(hay, suffix) {
            assert forall|j: int| 0 <= j < suffix.len() implies hay[hay.len() - suffix.len() + j]
                == #[trigger] suffix[j] by {
                assert(hay.skip(start)[j] == hay[start + j]);
            }
        }
    }
}

/// Law: lowering a character turns `A`..=`Z` into the letter 32 code points on, `a`..=`z`,
/// and leaves every other character as it is; lowering a text lowers each of its
/// characters and keeps its length.
pub proof fn law_ascii_lower(c: char, s: Seq<char>)
    ensures
        'A' <= c <= 'Z' ==> ascii_lower(c) as u32 == c as u32 + 32 && 'a' <= ascii_lower(c) <= 'z',
        !('A' <= c <= 'Z') ==> ascii_lower(c) == c,
        ascii_lower_seq(s).len() == s.len(),
        forall|i: int| 0 <= i < s.len() ==> ascii_lower_seq(s)[i] == ascii_lower(#[trigger] s[i]),
{
}

/// The characters of `s`, in order.
pub fn chars_of(s: &str) -> (v: Vec<char>)
    ensures
        v@ == s@,
{
    let mut v: Vec<char> = Vec::new();
    for c in it: s.chars()
        invariant
            it.seq() == s@,
            v@ == it.seq().take(it.index()),
    {
        v.push(c);
    }
    v
}

/// Whether `c` is in `set`.
pub fn contains_char(set: &Vec<char>, c: char) -> (b: bool)
    ensures
        b == set@.contains(c),
{
    let mut i: usize = 0;
    while i < set.len()
        invariant
            i <= set.len(),
            forall|j: int| 0 <= j < i ==> set@[j] != c,
        decreases set.len() - i,
    {
        if set[i] == c {
            return true;
        }
        i = i + 1;
    }
    false
}

/// Whether `needle` stands in `hay` at position `i`.
fn occurs_at_exec(hay: &Vec<char>, needle: &Vec<char>, i: usize) -> (b: bool)
    requires
        i + needle.len() <= hay.len(),
    ensures
        b == occurs_at(hay@, needle@, i as int),
{
    let m = needle.len();
    let mut k: usize = 0;
    while k < m
        invariant
            m == needle.len(),
            i + m <= hay.len(),
            k <= m,
            forall|j: int| 0 <= j < k ==> hay@[i + j] == needle@[j],
        decreases m - k,
    {
        if hay[i + k] != needle[k] {
            assert(hay@.subrange(i as int, i + m)[k as int] != needle@[k as int]);
            return false;
        }
        k = k + 1;
    }
    assert(hay@.subrange(i as int, i + m) =~= needle@);
    true
}

/// Whether `needle` is a contiguous part of `hay`.
pub fn contains_chars(hay: &Vec<char>, needle: &Vec<char>) -> (b: bool)
    ensures
        b == contains_seq(hay@, needle@),
        b <==> exists|i: int|
            0 <= i && i + needle@.len() <= hay@.len() && #[trigger] hay@.skip(i).take(
                needle@.len() as int,
            ) == needle@,
{
    proof {
        law_contains_is_some_window(hay@, needle@);
    }
    if needle.len() > hay.len() {
        return false;
    }
    if needle.len() == 0 {
        assert(hay@.subrange(0, 0) =~= needle@);
        assert(occurs_at(hay@, needle@, 0));
        return true;
    }
    let last = hay.len() - needle.len();
    let mut i: usize = 0;
    while i <= last
        invariant
            last == hay.len() - needle.len(),
            1 <= needle.len() <= hay.len(),
            i <= last + 1,
            forall|j: int| 0 <= j < i ==> !occurs_at(hay@, needle@, j),
        decreases last + 1 - i,
    {
        if occurs_at_exec(hay, needle, i) {
            proof {
                law_contains_is_some_window(hay@, needle@);
            }
            return true;
        }
        i = i + 1;
    }
    false
}

/// Whether `prefix` begins `hay`.
pub fn starts_with_chars(hay: &Vec<char>, prefix: &Vec<char>) -> (b: bool)
    ensures
        b == starts_with_seq(hay@, prefix@),
        b <==> (prefix@.len() <= hay@.len() && forall|j: int|
            0 <= j < prefix@.len() ==> hay@[j] == #[trigger] prefix@[j]),
{
    proof {
        law_starts_with_is_leading_chars(hay@, prefix@);
    }
    if prefix.len() > hay.len() {
        return false;
    }
    let b = occurs_at_exec(hay, prefix, 0);
    assert(hay@.subrange(0, prefix@.len() as int) == hay@.take(prefix@.len() as int));
    b
}

/// Whether `suffix` ends `hay`.
pub fn ends_with_chars(hay: &Vec<char>, suffix: &Vec<char>) -> (b: bool)
    ensures
        b == ends_with_seq(hay@, suffix@),
        b <==> (suffix@.len() <= hay@.len() && forall|j: int|
            0 <= j < suffix@.len() ==> hay@[hay@.len() - suffix@.len() + j] == #[trigger] suffix@[j]),
{
    proof {
        law_ends_with_is_trailing_chars(hay@, suffix@);
    }
    if suffix.len() > hay.len() {
        return false;
    }
    let start = hay.len() - suffix.len();
    let b = occurs_at_exec(hay, suffix, start);
    assert(hay@.subrange(start as int, hay@.len() as int) == hay@.skip(start as int));
    b
}

/// `c` with an ASCII capital letter turned into its small letter.
pub fn ascii_lower_char(c: char) -> (r: char)
    ensures
        r == ascii_lower(c),
        'A' <= c <= 'Z' ==> r as u32 == c as u32 + 32,
        !('A' <= c <= 'Z') ==> r == c,
{
    if 'A' <= c && c <= 'Z' {
        let b: u8 = c as u8;
        ((b + 32) as u8) as char
    } else {
        c
    }
}

/// Every character of `v` put through `ascii_lower`.
pub fn ascii_lower_chars(v: &Vec<char>) -> (r: Vec<char>)
    ensures
        r@ == ascii_lower_seq(v@),
        r@.len() == v@.len(),
        forall|i: int| 0 <= i < v@.len() ==> r@[i] == ascii_lower(#[trigger] v@[i]),
{
    let mut r: Vec<char> = Vec::new();
    let mut i: usize = 0;
    while i < v.len()
        invariant
            i <= v.len(),
            r@ == ascii_lower_seq(v@.take(i as int)),
        decreases v.len() - i,
    {
        r.push(ascii_lower_char(v[i]));
        assert(v@.take(i + 1) == v@.take(i as int).push(v@[i as int]));
        i = i + 1;
    }
    assert(v@.take(v@.len() as int) == v@);
    r
}

/// Appends `c` to `s`.
#[verifier::external_body]
pub(crate) fn push_char(s: &mut String, c: char)
    ensures
        final(s)@ == old(s)@.push(c),
{
    s.push(c);
}

/// A `String` holding the characters of `v`, in order.
pub fn string_of(v: &Vec<char>) -> (s: String)
    ensures
        s@ == v@,
{
    let mut s = String::new();
    let mut i: usize = 0;
    while i < v.len()
        invariant
            i <= v.len(),
            s@ == v@.take(i as int),
        decreases v.len() - i,
    {
        push_char(&mut s, v[i]);
        assert(v@.take(i + 1) == v@.take(i as int).push(v@[i as int]));
        i = i + 1;
    }
    assert(v@.take(v@.len() as int) == v@);
    s
}

/// Whether `a` and `b` hold the same characters.
pub fn equal_chars(a: &Vec<char>, b: &Vec<char>) -> (r: bool)
    ensures
        r == (a@ == b@),
{
    if a.len() != b.len() {
        return false;
    }
    let mut i: usize = 0;
    while i < a.len()
        invariant
            a.len() == b.len(),
            i <= a.len(),
            forall|j: int| 0 <= j < i ==> a@[j] == b@[j],
        decreases a.len() - i,
    {
        if a[i] != b[i] {
            return false;
        }
        i = i + 1;
    }
    assert(a@ =~= b@);
    true
}

/// The lowercase form of a text under Unicode's `Lowercase` mapping, as `str::to_lowercase`
/// computes it.
pub uninterp spec fn unicode_lowercase(s: Seq<char>) -> Seq<char>;

/// Calls `str::to_lowercase`. Its result is named: the Unicode mapping it applies depends
/// on the text alone. On ASCII text it is stated: std's documentation of
/// `str::to_ascii_lowercase`, which maps `A`..=`Z` to `a`..=`z` and leaves every other
/// character as it is, sends callers to `to_lowercase` to lowercase "ASCII characters in
/// addition to non-ASCII characters", so the two agree on ASCII.
#[verifier::external_body]
pub(crate) fn to_lowercase(s: &str) -> (r: String)
    ensures
        r@ == unicode_lowercase(s@),
        is_ascii_chars(s@) ==> r@ == ascii_lower_seq(s@),
{
    s.to_lowercase()
}

/// Whether a character is alphabetic or numeric in Unicode's sense, as
/// `char::is_alphanumeric` decides it.
pub uninterp spec fn unicode_alphanumeric(c: char) -> bool;

/// Calls `char::is_alphanumeric`. Its result is named, not stated: it depends on the
/// character alone.
#[verifier::external_body]
pub(crate) fn is_alphanumeric_char(c: char) -> (b: bool)
    ensures
        b == unicode_alphanumeric(c),
{
    c.is_alphanumeric()
}

/// The text that `String::from_utf8_lossy` reads from `bytes`, invalid sequences
/// replaced by U+FFFD.
pub uninterp spec fn utf8_lossy(bytes: Seq<u8>) -> Seq<char>;

/// Calls `String::from_utf8_lossy` and takes the text out of the `Cow`. Its documentation
/// gives the decoded text for valid UTF-8; the replacement of invalid sequences is named,
/// not stated.
#[verifier::external_body]
pub(crate) fn from_utf8_lossy(bytes: &[u8]) -> (s: String)
    ensures
        s@ == utf8_lossy(bytes@),
        valid_utf8(bytes@) ==> s@ == decode_utf8(bytes@),
{
    String::from_utf8_lossy(bytes).into_owned()
}

} // verus!
