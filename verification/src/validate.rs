//! Checks on the search patterns and the other choices of a search.

use vstd::prelude::*;
use crate::keys::KeyAlgorithm;
use vstd::utf8::is_ascii_chars;
use crate::text::{ascii_lower_seq, chars_of, contains_chars, contains_seq, occurs_at, equal_chars, push_char, contains_char, is_alphanumeric_char, to_lowercase, unicode_alphanumeric, unicode_lowercase};

verus! {

/// The characters that an XRP Ledger classic address can hold, in base58 order.
pub const XRPL_ALPHABET: &'static str = "rpshnaf39wBUDNEGHJKLM4PQRST7VWXYZ2bcdeCg65jkm8oFqi1tuvAxyz";

/// Why a search cannot start.
#[derive(Debug)]
pub enum SearchError {
    /// None of `--find`, `--begins` and `--ends` was given.
    MissingPattern,
    /// A pattern holds one of the easily confused characters `I`, `O`, `l`, `0`.
    ConfusingChar(char),
    /// `--find` holds a character that is neither a letter nor a digit.
    FindNotAlphanumeric,
    /// A pattern holds a character that no address can hold.
    InvalidChar { ch: char, field: String },
    /// The algorithm name is neither ed25519 nor secp256k1.
    InvalidAlgorithm(String),
    /// The case-insensitive pattern did not compile.
    RegexBuild,
}

/// The first character of `s` that `set` lacks.
pub open spec fn first_not_in(s: Seq<char>, set: Seq<char>) -> Option<char>
    decreases s.len(),
{
    if s.len() == 0 {
        None
    } else if !set.contains(s[0]) {
        Some(s[0])
    } else {
        first_not_in(s.drop_first(), set)
    }
}

/// The text that the alphabet check reads: lowercased when the search ignores case.
pub open spec fn checked_text(s: Seq<char>, insensitive: bool) -> Seq<char> {
    if insensitive {
        unicode_lowercase(s)
    } else {
        s
    }
}

/// The character that makes `s` fail the alphabet check, if any.
pub open spec fn invalid_char(s: Seq<char>, insensitive: bool) -> Option<char> {
    if s.len() == 0 {
        None
    } else {
        first_not_in(checked_text(s, insensitive), checked_text(XRPL_ALPHABET@, insensitive))
    }
}

/// `c` occurs in one of the three patterns.
pub open spec fn in_any(c: char, find: Seq<char>, begins: Seq<char>, ends: Seq<char>) -> bool {
    find.contains(c) || begins.contains(c) || ends.contains(c)
}

/// The first of `I`, `O`, `l`, `0`, in that order, that occurs in one of the patterns.
pub open spec fn first_confusing(find: Seq<char>, begins: Seq<char>, ends: Seq<char>) -> Option<
    char,
> {
    if in_any('I', find, begins, ends) {
        Some('I')
    } else if in_any('O', find, begins, ends) {
        Some('O')
    } else if in_any('l', find, begins, ends) {
        Some('l')
    } else if in_any('0', find, begins, ends) {
        Some('0')
    } else {
        None
    }
}

/// Every character of `s` is alphanumeric.
pub open spec fn all_alphanumeric(s: Seq<char>) -> bool {
    forall|i: int| 0 <= i < s.len() ==> unicode_alphanumeric(#[trigger] s[i])
}

/// The first character of `s` that `set` lacks, if any.
fn first_not_in_exec(s: &Vec<char>, set: &Vec<char>) -> (r: Option<char>)
    ensures
        r == first_not_in(s@, set@),
{
    let mut i: usize = 0;
    assert(s@.skip(0) == s@);
    while i < s.len()
        invariant
            i <= s.len(),
            first_not_in(s@, set@) == first_not_in(s@.skip(i as int), set@),
        decreases s.len() - i,
    {
        let c = s[i];
        assert(s@.skip(i as int)[0] == c);
        if !contains_char(set, c) {
            return Some(c);
        }
        assert(s@.skip(i as int).drop_first() == s@.skip(i + 1));
        i = i + 1;
    }
    assert(s@.skip(i as int).len() == 0);
    None
}

/// `first_not_in` finds nothing exactly when `set` holds every character of `s`.
proof fn lemma_first_not_in_none(s: Seq<char>, set: Seq<char>)
    ensures
        first_not_in(s, set) is None <==> forall|i: int|
            0 <= i < s.len() ==> set.contains(#[trigger] s[i]),
    decreases s.len(),
{
    if s.len() > 0 {
        lemma_first_not_in_none(s.drop_first(), set);
        if first_not_in(s, set) is None {
            assert forall|i: int| 0 <= i < s.len() implies set.contains(#[trigger] s[i]) by {
                if i > 0 {
                    assert(s[i] == s.drop_first()[i - 1]);
                }
            }
        } else if set.contains(s[0]) {
            let i = choose|i: int| 0 <= i < s.drop_first().len() && !set.contains(
                #[trigger] s.drop_first()[i],
            );
            assert(s.drop_first()[i] == s[i + 1]);
        }
    }
}

/// When `first_not_in` finds a character, it is the one at the first position whose
/// character `set` lacks.
proof fn lemma_first_not_in_some(s: Seq<char>, set: Seq<char>)
    ensures
        first_not_in(s, set) matches Some(c) ==> exists|i: int|
            0 <= i < s.len() && #[trigger] s[i] == c && !set.contains(c) && forall|j: int|
                0 <= j < i ==> set.contains(s[j]),
    decreases s.len(),
{
    if s.len() > 0 && set.contains(s[0]) {
        lemma_first_not_in_some(s.drop_first(), set);
        if let Some(c) = first_not_in(s, set) {
            let i = choose|i: int|
                0 <= i < s.drop_first().len() && #[trigger] s.drop_first()[i] == c
                    && !set.contains(c) && forall|j: int|
                    0 <= j < i ==> set.contains(s.drop_first()[j]);
            assert(s[i + 1] == c);
            assert forall|j: int| 0 <= j < i + 1 implies set.contains(s[j]) by {
                if j > 0 {
                    assert(s[j] == s.drop_first()[j - 1]);
                }
            }
        }
    } else if s.len() > 0 {
        assert(s[0] == s[0]);
    }
}

/// The address alphabet is ASCII.
proof fn lemma_alphabet_is_ascii()
    ensures
        is_ascii_chars(XRPL_ALPHABET@),
{
    reveal_strlit("rpshnaf39wBUDNEGHJKLM4PQRST7VWXYZ2bcdeCg65jkm8oFqi1tuvAxyz");
    assert forall|i: int| 0 <= i < XRPL_ALPHABET@.len() implies '\0' <= #[trigger] XRPL_ALPHABET@[i]
        <= '\u{7f}' by {
        assert(XRPL_ALPHABET@ == "rpshnaf39wBUDNEGHJKLM4PQRST7VWXYZ2bcdeCg65jkm8oFqi1tuvAxyz"@);
    }
}

/// A text whose characters all stand in an ASCII `set` is ASCII, and after lowercasing
/// both, the lowered `set` still holds every lowered character.
proof fn lemma_ascii_lower_keeps_membership(s: Seq<char>, set: Seq<char>)
    requires
        is_ascii_chars(set),
        forall|i: int| 0 <= i < s.len() ==> set.contains(#[trigger] s[i]),
    ensures
        is_ascii_chars(s),
        forall|i: int|
            0 <= i < s.len() ==> ascii_lower_seq(set).contains(#[trigger] ascii_lower_seq(s)[i]),
{
    assert forall|i: int| 0 <= i < s.len() implies '\0' <= #[trigger] s[i] <= '\u{7f}' by {
        assert(set.contains(s[i]));
        let j = choose|j: int| 0 <= j < set.len() && set[j] == s[i];
        assert('\0' <= set[j] <= '\u{7f}');
    }
    assert forall|i: int| 0 <= i < s.len() implies ascii_lower_seq(set).contains(
        #[trigger] ascii_lower_seq(s)[i],
    ) by {
        assert(set.contains(s[i]));
        let j = choose|j: int| 0 <= j < set.len() && set[j] == s[i];
        assert(ascii_lower_seq(set)[j] == ascii_lower_seq(s)[i]);
    }
}

/// Checks that every character of `s` can stand in an address: after lowercasing both
/// `s` and the alphabet when `insensitive`. An empty `s` passes. The error names the
/// first offending character, as read after lowercasing, and the option `field`.
///
/// Law: ignoring case never refuses a text that the exact check accepts (the last clause).
pub fn validate_chars(s: &str, field: &str, insensitive: bool) -> (r: Result<(), SearchError>)
    ensures
        invalid_char(s@, insensitive) is None ==> r is Ok,
        invalid_char(s@, insensitive) matches Some(c) ==> (r matches Err(
            SearchError::InvalidChar { ch, field: f },
        ) && ch == c && f@ == field@),
        invalid_char(s@, false) is None ==> r is Ok,
        !insensitive ==> (r is Ok <==> (s@.len() == 0 || forall|i: int|
            0 <= i < s@.len() ==> XRPL_ALPHABET@.contains(#[trigger] s@[i]))),
        insensitive ==> (r is Ok <==> (s@.len() == 0 || forall|i: int|
            0 <= i < unicode_lowercase(s@).len() ==> unicode_lowercase(XRPL_ALPHABET@).contains(
                #[trigger] unicode_lowercase(s@)[i],
            ))),
        r is Err ==> s@.len() > 0,
        !insensitive ==> (r matches Err(SearchError::InvalidChar { ch, field: f }) ==> (f@ == field@
            && exists|i: int|
            0 <= i < s@.len() && #[trigger] s@[i] == ch && !XRPL_ALPHABET@.contains(ch)
                && forall|j: int| 0 <= j < i ==> XRPL_ALPHABET@.contains(s@[j]))),
        insensitive ==> (r matches Err(SearchError::InvalidChar { ch, field: f }) ==> (f@ == field@
            && exists|i: int|
            0 <= i < unicode_lowercase(s@).len() && #[trigger] unicode_lowercase(s@)[i] == ch
                && !unicode_lowercase(XRPL_ALPHABET@).contains(ch) && forall|j: int|
                0 <= j < i ==> unicode_lowercase(XRPL_ALPHABET@).contains(
                    unicode_lowercase(s@)[j],
                ))),
{
    proof {
        let text = checked_text(s@, insensitive);
        let alph = checked_text(XRPL_ALPHABET@, insensitive);
        lemma_first_not_in_none(text, alph);
        lemma_first_not_in_some(text, alph);
    }
    if s.is_empty() {
        return Ok(());
    }
    let check_s = if insensitive {
        to_lowercase(s)
    } else {
        s.to_owned()
    };
    let check_alph = if insensitive {
        to_lowercase(XRPL_ALPHABET)
    } else {
        XRPL_ALPHABET.to_owned()
    };
    proof {
        if insensitive && first_not_in(s@, XRPL_ALPHABET@) is None {
            lemma_first_not_in_none(s@, XRPL_ALPHABET@);
            lemma_alphabet_is_ascii();
            lemma_ascii_lower_keeps_membership(s@, XRPL_ALPHABET@);
            lemma_first_not_in_none(ascii_lower_seq(s@), ascii_lower_seq(XRPL_ALPHABET@));
        }
    }
    let text = chars_of(check_s.as_str());
    let alphabet = chars_of(check_alph.as_str());
    match first_not_in_exec(&text, &alphabet) {
        None => Ok(()),
        Some(c) => Err(SearchError::InvalidChar { ch: c, field: field.to_owned() }),
    }
}

/// Whether every character of `s` is a letter or a digit (in Unicode's sense). The empty
/// text passes.
pub fn is_alphanumeric(s: &str) -> (b: bool)
    ensures
        b == all_alphanumeric(s@),
        b <==> forall|i: int| 0 <= i < s@.len() ==> unicode_alphanumeric(#[trigger] s@[i]),
        !b ==> exists|i: int| 0 <= i < s@.len() && !unicode_alphanumeric(#[trigger] s@[i]),
{
    let v = chars_of(s);
    let mut i: usize = 0;
    while i < v.len()
        invariant
            v@ == s@,
            i <= v.len(),
            forall|j: int| 0 <= j < i ==> unicode_alphanumeric(#[trigger] v@[j]),
        decreases v.len() - i,
    {
        if !is_alphanumeric_char(v[i]) {
            return false;
        }
        i = i + 1;
    }
    true
}

/// Refuses patterns that hold `I`, `O`, `l` or `0`, which are easily mistaken for one
/// another; the error names the first of them, in that order, that occurs.
pub fn prevent_confusing_chars(find: &str, begins: &str, ends: &str) -> (r: Result<
    (),
    SearchError,
>)
    ensures
        first_confusing(find@, begins@, ends@) is None ==> r is Ok,
        first_confusing(find@, begins@, ends@) matches Some(c) ==> r == Err::<(), SearchError>(
            SearchError::ConfusingChar(c),
        ),
        r matches Err(e) ==> (e matches SearchError::ConfusingChar(c) && (c == 'I' || c == 'O'
            || c == 'l' || c == '0') && (find@.contains(c) || begins@.contains(c)
            || ends@.contains(c))),
        r is Ok <==> {
            &&& !find@.contains('I') && !begins@.contains('I') && !ends@.contains('I')
            &&& !find@.contains('O') && !begins@.contains('O') && !ends@.contains('O')
            &&& !find@.contains('l') && !begins@.contains('l') && !ends@.contains('l')
            &&& !find@.contains('0') && !begins@.contains('0') && !ends@.contains('0')
        },
{
    proof {
        law_confusing_chars_are_exactly_four(find@, begins@, ends@);
    }
    let f = chars_of(find);
    let b = chars_of(begins);
    let e = chars_of(ends);
    if contains_char(&f, 'I') || contains_char(&b, 'I') || contains_char(&e, 'I') {
        return Err(SearchError::ConfusingChar('I'));
    }
    if contains_char(&f, 'O') || contains_char(&b, 'O') || contains_char(&e, 'O') {
        return Err(SearchError::ConfusingChar('O'));
    }
    if contains_char(&f, 'l') || contains_char(&b, 'l') || contains_char(&e, 'l') {
        return Err(SearchError::ConfusingChar('l'));
    }
    if contains_char(&f, '0') || contains_char(&b, '0') || contains_char(&e, '0') {
        return Err(SearchError::ConfusingChar('0'));
    }
    Ok(())
}

impl SearchError {
    /// The text the finder prints for this error.
    pub open spec fn message_text(self) -> Seq<char> {
        match self {
            SearchError::MissingPattern => "Error: Missing --find, --begins or --ends. At least one is required."@,
            SearchError::ConfusingChar(c) => "Error: cannot use confusing character '"@ + seq![c]
                + "' in --find, --begins or --ends (avoid I, O, l, 0)"@,
            SearchError::FindNotAlphanumeric => "Error: --find must be alphanumeric."@,
            SearchError::InvalidChar { ch, field } => "Error: cannot use '"@ + seq![ch] + "' in --"@
                + field@,
            SearchError::InvalidAlgorithm(name) => "Error: invalid algorithm '"@ + name@
                + "'. Use ed25519 or secp256k1."@,
            SearchError::RegexBuild => "Failed to compile case-insensitive regex"@,
        }
    }

    /// The text the finder prints for this error.
    pub fn message(&self) -> (m: String)
        ensures
            m@ == self.message_text(),
    {
        match self {
            SearchError::MissingPattern => {
                "Error: Missing --find, --begins or --ends. At least one is required.".to_owned()
            },
            SearchError::ConfusingChar(c) => {
                let mut m = "Error: cannot use confusing character '".to_owned();
                push_char(&mut m, *c);
                m.append("' in --find, --begins or --ends (avoid I, O, l, 0)");
                m
            },
            SearchError::FindNotAlphanumeric => "Error: --find must be alphanumeric.".to_owned(),
            SearchError::InvalidChar { ch, field } => {
                let mut m = "Error: cannot use '".to_owned();
                push_char(&mut m, *ch);
                m.append("' in --");
                m.append(field.as_str());
                m
            },
            SearchError::InvalidAlgorithm(name) => {
                let mut m = "Error: invalid algorithm '".to_owned();
                m.append(name.as_str());
                m.append("'. Use ed25519 or secp256k1.");
                m
            },
            SearchError::RegexBuild => "Failed to compile case-insensitive regex".to_owned(),
        }
    }
}

/// None of the three patterns was given.
pub open spec fn patterns_missing(find: Seq<char>, begins: Seq<char>, ends: Seq<char>) -> bool {
    find.len() == 0 && begins.len() == 0 && ends.len() == 0
}

/// `--find` is given and holds a character that is not alphanumeric.
pub open spec fn find_rejected(find: Seq<char>) -> bool {
    find.len() > 0 && !all_alphanumeric(find)
}

/// `r` is what the alphabet checks of `find`, `begins` and `ends`, run in that order,
/// give: the first failure, or success.
pub open spec fn alphabet_outcome(
    r: Result<(), SearchError>,
    find: Seq<char>,
    begins: Seq<char>,
    ends: Seq<char>,
    insensitive: bool,
) -> bool {
    if let Some(c) = invalid_char(find, insensitive) {
        r matches Err(SearchError::InvalidChar { ch, field }) && ch == c && field@ == "find"@
    } else if let Some(c) = invalid_char(begins, insensitive) {
        r matches Err(SearchError::InvalidChar { ch, field }) && ch == c && field@ == "begins"@
    } else if let Some(c) = invalid_char(ends, insensitive) {
        r matches Err(SearchError::InvalidChar { ch, field }) && ch == c && field@ == "ends"@
    } else {
        r is Ok
    }
}

/// Runs the checks that the finder makes on its patterns before a search, in order:
/// at least one pattern; no confusing character; an alphanumeric `--find`; only
/// characters of the address alphabet in each pattern.
pub fn validate_search(find: &str, begins: &str, ends: &str, insensitive: bool) -> (r: Result<
    (),
    SearchError,
>)
    ensures
        patterns_missing(find@, begins@, ends@) ==> r == Err::<(), SearchError>(
            SearchError::MissingPattern,
        ),
        !patterns_missing(find@, begins@, ends@) ==> (first_confusing(find@, begins@, ends@) matches Some(
            c,
        ) ==> r == Err::<(), SearchError>(SearchError::ConfusingChar(c))),
        !patterns_missing(find@, begins@, ends@) && first_confusing(find@, begins@, ends@) is None
            && find_rejected(find@) ==> r == Err::<(), SearchError>(
            SearchError::FindNotAlphanumeric,
        ),
        !patterns_missing(find@, begins@, ends@) && first_confusing(find@, begins@, ends@) is None
            && !find_rejected(find@) ==> alphabet_outcome(r, find@, begins@, ends@, insensitive),
        r is Ok ==> {
            &&& !patterns_missing(find@, begins@, ends@)
            &&& first_confusing(find@, begins@, ends@) is None
            &&& !find_rejected(find@)
            &&& invalid_char(find@, insensitive) is None
            &&& invalid_char(begins@, insensitive) is None
            &&& invalid_char(ends@, insensitive) is None
        },
        (r matches Err(SearchError::MissingPattern)) <==> (find@.len() == 0 && begins@.len() == 0
            && ends@.len() == 0),
        r matches Err(SearchError::ConfusingChar(c)) ==> ((c == 'I' || c == 'O' || c == 'l' || c
            == '0') && (find@.contains(c) || begins@.contains(c) || ends@.contains(c))),
        r matches Err(SearchError::InvalidChar { ch, field }) ==> {
            ||| field@ == "find"@ && invalid_char(find@, insensitive) == Some(ch)
            ||| field@ == "begins"@ && invalid_char(find@, insensitive) is None && invalid_char(
                begins@,
                insensitive,
            ) == Some(ch)
            ||| field@ == "ends"@ && invalid_char(find@, insensitive) is None && invalid_char(
                begins@,
                insensitive,
            ) is None && invalid_char(ends@, insensitive) == Some(ch)
        },
{
    proof {
        law_missing_pattern_only_when_none_given(find@, begins@, ends@);
    }
    if find.is_empty() && begins.is_empty() && ends.is_empty() {
        return Err(SearchError::MissingPattern);
    }
    prevent_confusing_chars(find, begins, ends)?;
    if !find.is_empty() && !is_alphanumeric(find) {
        return Err(SearchError::FindNotAlphanumeric);
    }
    validate_chars(find, "find", insensitive)?;
    validate_chars(begins, "begins", insensitive)?;
    validate_chars(ends, "ends", insensitive)?;
    Ok(())
}

/// The algorithm that a lowercased algorithm name selects: any name holding `ed` selects
/// Ed25519, else any holding `secp` selects secp256k1.
pub open spec fn algorithm_named(lower: Seq<char>) -> Option<KeyAlgorithm> {
    if lower == "ed25519"@ || contains_seq(lower, "ed"@) {
        Some(KeyAlgorithm::Ed25519)
    } else if lower == "secp256k1"@ || contains_seq(lower, "secp"@) {
        Some(KeyAlgorithm::Secp256k1)
    } else {
        None
    }
}

/// Reads an algorithm name, ignoring case.
pub fn parse_algorithm(name: &str) -> (r: Result<KeyAlgorithm, SearchError>)
    ensures
        algorithm_named(unicode_lowercase(name@)) matches Some(a) ==> r == Ok::<
            KeyAlgorithm,
            SearchError,
        >(a),
        algorithm_named(unicode_lowercase(name@)) is None ==> (r matches Err(
            SearchError::InvalidAlgorithm(given),
        ) && given@ == name@),
        r == Ok::<KeyAlgorithm, SearchError>(KeyAlgorithm::Ed25519) <==> contains_seq(
            unicode_lowercase(name@),
            "ed"@,
        ),
        r == Ok::<KeyAlgorithm, SearchError>(KeyAlgorithm::Secp256k1) <==> (!contains_seq(
            unicode_lowercase(name@),
            "ed"@,
        ) && contains_seq(unicode_lowercase(name@), "secp"@)),
{
    proof {
        law_algorithm_names(unicode_lowercase(name@));
    }
    let lower = to_lowercase(name);
    let l = chars_of(lower.as_str());
    if equal_chars(&l, &chars_of("ed25519")) || contains_chars(&l, &chars_of("ed")) {
        Ok(KeyAlgorithm::Ed25519)
    } else if equal_chars(&l, &chars_of("secp256k1")) || contains_chars(&l, &chars_of("secp")) {
        Ok(KeyAlgorithm::Secp256k1)
    } else {
        Err(SearchError::InvalidAlgorithm(name.to_owned()))
    }
}

/// The number of worker threads: the number asked for when it is above zero and below
/// the number of processors available, else all of them.
pub fn select_cores(requested: usize, available: usize) -> (n: usize)
    ensures
        n == (if 0 < requested && requested < available {
            requested
        } else {
            available
        }),
{
    if requested > 0 && requested < available {
        requested
    } else {
        available
    }
}

/// Law: a search lacks a pattern exactly when `--find`, `--begins` and `--ends` are all
/// empty; any one of them given is enough.
pub proof fn law_missing_pattern_only_when_none_given(
    find: Seq<char>,
    begins: Seq<char>,
    ends: Seq<char>,
)
    ensures
        patterns_missing(find, begins, ends) <==> (find.len() == 0 && begins.len() == 0 && ends.len()
            == 0),
{
}

/// Law: the confusing-character check refuses a pattern only for the four characters
/// `I`, `O`, `l` and `0`, exactly as written, and only one that occurs in a pattern;
/// patterns free of those four pass, whatever other characters (such as `i`, `o`, `L`)
/// they hold.
pub proof fn law_confusing_chars_are_exactly_four(find: Seq<char>, begins: Seq<char>, ends: Seq<char>)
    ensures
        first_confusing(find, begins, ends) matches Some(c) ==> ((c == 'I' || c == 'O' || c == 'l'
            || c == '0') && (find.contains(c) || begins.contains(c) || ends.contains(c))),
        first_confusing(find, begins, ends) is None <==> {
            &&& !find.contains('I') && !begins.contains('I') && !ends.contains('I')
            &&& !find.contains('O') && !begins.contains('O') && !ends.contains('O')
            &&& !find.contains('l') && !begins.contains('l') && !ends.contains('l')
            &&& !find.contains('0') && !begins.contains('0') && !ends.contains('0')
        },
{
}

/// Law: a lowercased algorithm name selects Ed25519 exactly when it holds `ed`, and
/// secp256k1 exactly when it holds `secp` but not `ed`; any other name selects nothing.
pub proof fn law_algorithm_names(lower: Seq<char>)
    ensures
        algorithm_named(lower) == Some(KeyAlgorithm::Ed25519) <==> contains_seq(lower, "ed"@),
        algorithm_named(lower) == Some(KeyAlgorithm::Secp256k1) <==> (!contains_seq(lower, "ed"@)
            && contains_seq(lower, "secp"@)),
        algorithm_named(lower) is None <==> (!contains_seq(lower, "ed"@) && !contains_seq(
            lower,
            "secp"@,
        )),
{
    if lower == "ed25519"@ {
        reveal_strlit("ed25519");
        reveal_strlit("ed");
        assert(lower.subrange(0, 2) =~= "ed"@);
        assert(occurs_at(lower, "ed"@, 0));
    }
    if lower == "secp256k1"@ {
        reveal_strlit("secp256k1");
        reveal_strlit("secp");
        assert(lower.subrange(0, 4) =~= "secp"@);
        assert(occurs_at(lower, "secp"@, 0));
    }
}

} // verus!
