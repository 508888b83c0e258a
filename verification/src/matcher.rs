//! How an address is tested against `--find`.

use vstd::prelude::*;
use regex::{Regex, RegexBuilder};
use vstd::utf8::is_ascii_chars;
use crate::text::{
    ascii_lower_chars, ascii_lower_seq, chars_of, contains_chars, contains_seq,
    law_contains_is_some_window,
};
use crate::validate::SearchError;

verus! {

#[verifier::external_type_specification]
#[verifier::external_body]
pub struct ExRegex(Regex);

#[verifier::external_type_specification]
#[verifier::external_body]
pub struct ExRegexError(regex::Error);

/// A character with a meaning of its own in a regular expression.
pub open spec fn is_regex_meta(c: char) -> bool {
    c == '\\' || c == '.' || c == '+' || c == '*' || c == '?' || c == '(' || c == ')' || c
        == '|' || c == '[' || c == ']' || c == '{' || c == '}' || c == '^' || c == '$' || c
        == '#' || c == '&' || c == '-' || c == '~'
}

/// `s` with a backslash put before each regex meta character.
pub open spec fn escaped(s: Seq<char>) -> Seq<char>
    decreases s.len(),
{
    if s.len() == 0 {
        Seq::empty()
    } else {
        escaped(s.drop_last()) + if is_regex_meta(s.last()) {
            seq!['\\', s.last()]
        } else {
            seq![s.last()]
        }
    }
}

/// Whether the case-insensitive regex of `pattern` compiles, as
/// `regex::RegexBuilder::build` decides it.
pub uninterp spec fn case_insensitive_regex_compiles(pattern: Seq<char>) -> bool;

/// Whether the case-insensitive regex of `pattern` matches somewhere in `haystack`, as
/// `regex::Regex::is_match` decides it.
pub uninterp spec fn case_insensitive_regex_matches(pattern: Seq<char>, haystack: Seq<char>) -> bool;

/// Calls `regex::escape`, which puts a backslash before each character for which
/// `regex_syntax::is_meta_character` holds, and leaves the others as they are.
#[verifier::external_body]
fn escape_regex(text: &str) -> (r: String)
    ensures
        r@ == escaped(text@),
{
    regex::escape(text)
}

/// Calls `RegexBuilder::new(pattern).case_insensitive(true).build()`. Whether it
/// succeeds depends on the pattern alone and is named, not stated.
#[verifier::external_body]
fn compile_case_insensitive(pattern: &str) -> (r: Result<Regex, regex::Error>)
    ensures
        r is Ok <==> case_insensitive_regex_compiles(pattern@),
{
    RegexBuilder::new(pattern).case_insensitive(true).build()
}

/// A regular expression compiled to ignore case, with the pattern it was compiled from.
pub struct CaseInsensitiveRegex {
    pattern: String,
    regex: Regex,
}

/// Calls `regex::Regex::is_match` on the regex that `CaseInsensitiveRegex::new` compiled
/// from `re`'s pattern: its fields are private, and `new` is the only place that sets them.
/// What the regex matches is named. For an escaped ASCII text and an ASCII haystack the
/// regex documentation gives the result: `escape` makes the text a literal, `is_match`
/// looks for a match anywhere, and case insensitivity follows Unicode's simple case
/// folding, under which an ASCII character matches no other ASCII character than its
/// other case.
#[verifier::external_body]
fn regex_is_match(re: &CaseInsensitiveRegex, haystack: &str) -> (b: bool)
    ensures
        b == case_insensitive_regex_matches(re.pattern@, haystack@),
        forall|text: Seq<char>|
            #![trigger escaped(text)]
            re.pattern@ == escaped(text) && is_ascii_chars(text) && is_ascii_chars(haystack@)
                ==> (b == contains_seq(ascii_lower_seq(haystack@), ascii_lower_seq(text))),
{
    re.regex.is_match(haystack)
}

impl CaseInsensitiveRegex {
    /// The pattern this regex was compiled from.
    pub closed spec fn pattern(&self) -> Seq<char> {
        self.pattern@
    }

    /// Compiles `pattern` to ignore case.
    pub fn new(pattern: &str) -> (r: Result<CaseInsensitiveRegex, SearchError>)
        ensures
            case_insensitive_regex_compiles(pattern@) ==> (r matches Ok(re) && re.pattern()
                == pattern@),
            !case_insensitive_regex_compiles(pattern@) ==> r matches Err(SearchError::RegexBuild),
    {
        match compile_case_insensitive(pattern) {
            Ok(regex) => Ok(CaseInsensitiveRegex { pattern: pattern.to_owned(), regex }),
            Err(_) => Err(SearchError::RegexBuild),
        }
    }

    /// Whether the regex matches somewhere in `haystack`.
    pub fn is_match(&self, haystack: &str) -> (b: bool)
        ensures
            b == case_insensitive_regex_matches(self.pattern(), haystack@),
            forall|text: Seq<char>|
                #![trigger escaped(text)]
                self.pattern() == escaped(text) && is_ascii_chars(text) && is_ascii_chars(
                    haystack@,
                ) ==> (b == contains_seq(ascii_lower_seq(haystack@), ascii_lower_seq(text))),
    {
        regex_is_match(self, haystack)
    }
}

/// A test of an address against the text of `--find`.
pub enum Matcher {
    /// The text occurs in the address, ASCII letters compared without regard to case.
    Contains(String),
    /// The text occurs in the address exactly as written.
    CaseSensitive(String),
    /// The regex matches somewhere in the address.
    Regex(CaseInsensitiveRegex),
}

impl Matcher {
    /// Whether this matcher accepts the address text `s`.
    pub open spec fn accepts(&self, s: Seq<char>) -> bool {
        match self {
            Matcher::Contains(sub) => contains_seq(ascii_lower_seq(s), ascii_lower_seq(sub@)),
            Matcher::CaseSensitive(sub) => contains_seq(s, sub@),
            Matcher::Regex(re) => case_insensitive_regex_matches(re.pattern(), s),
        }
    }

    /// Whether this matcher accepts `s`.
    pub fn matches(&self, s: &str) -> (b: bool)
        ensures
            b == self.accepts(s@),
            self matches Matcher::CaseSensitive(sub) ==> (b <==> exists|i: int|
                0 <= i && i + sub@.len() <= s@.len() && #[trigger] s@.skip(i).take(
                    sub@.len() as int,
                ) == sub@),
            self matches Matcher::Contains(sub) ==> (b <==> exists|i: int|
                0 <= i && i + sub@.len() <= s@.len() && #[trigger] ascii_lower_seq(s@).skip(
                    i,
                ).take(sub@.len() as int) == ascii_lower_seq(sub@)),
            forall|text: Seq<char>|
                #![trigger escaped(text)]
                self matches Matcher::Regex(re) && re.pattern() == escaped(text) && is_ascii_chars(
                    text,
                ) && is_ascii_chars(s@) ==> (b == contains_seq(
                    ascii_lower_seq(s@),
                    ascii_lower_seq(text),
                )),
    {
        proof {
            law_matcher_windows(self, s@);
        }
        match self {
            Matcher::Contains(sub) => {
                let hay = ascii_lower_chars(&chars_of(s));
                let needle = ascii_lower_chars(&chars_of(sub.as_str()));
                contains_chars(&hay, &needle)
            },
            Matcher::CaseSensitive(sub) => contains_chars(&chars_of(s), &chars_of(sub.as_str())),
            Matcher::Regex(re) => re.is_match(s),
        }
    }

    /// The matcher for the text of `--find`: one that accepts every address when the text
    /// is empty; the case-insensitive regex of the escaped text when case is ignored; the
    /// exact text otherwise.
    pub fn for_find(find: &str, insensitive: bool) -> (r: Result<Matcher, SearchError>)
        ensures
            find@.len() == 0 ==> (r matches Ok(Matcher::Contains(sub)) && sub@.len() == 0),
            find@.len() > 0 && !insensitive ==> (r matches Ok(Matcher::CaseSensitive(sub))
                && sub@ == find@),
            find@.len() > 0 && insensitive && case_insensitive_regex_compiles(escaped(find@))
                ==> (r matches Ok(Matcher::Regex(re)) && re.pattern() == escaped(find@)),
            find@.len() > 0 && insensitive && !case_insensitive_regex_compiles(escaped(find@))
                ==> r matches Err(SearchError::RegexBuild),
    {
        if find.is_empty() {
            Ok(Matcher::Contains(String::new()))
        } else if insensitive {
            let pattern = escape_regex(find);
            let re = CaseInsensitiveRegex::new(pattern.as_str())?;
            Ok(Matcher::Regex(re))
        } else {
            Ok(Matcher::CaseSensitive(find.to_owned()))
        }
    }
}

/// Law: escaping leaves a text without regex meta characters as it is, so a plain
/// `--find` is searched for literally.
pub proof fn law_escape_keeps_plain_text(s: Seq<char>)
    requires
        forall|i: int| 0 <= i < s.len() ==> !is_regex_meta(#[trigger] s[i]),
    ensures
        escaped(s) == s,
    decreases s.len(),
{
    if s.len() > 0 {
        law_escape_keeps_plain_text(s.drop_last());
        assert(s.drop_last().push(s.last()) =~= s);
    }
}

/// Lowercasing ASCII letters twice changes nothing more than doing it once.
proof fn lemma_ascii_lower_idempotent(s: Seq<char>)
    ensures
        ascii_lower_seq(ascii_lower_seq(s)) == ascii_lower_seq(s),
{
    assert(ascii_lower_seq(ascii_lower_seq(s)) =~= ascii_lower_seq(s));
}

/// Law: a `Contains` matcher ignores the case of ASCII letters in the address: it
/// accepts an address exactly when it accepts the address with its capitals made small.
pub proof fn law_contains_ignores_ascii_case(m: Matcher, s: Seq<char>)
    requires
        m is Contains,
    ensures
        m.accepts(s) == m.accepts(ascii_lower_seq(s)),
{
    lemma_ascii_lower_idempotent(s);
}

/// Law: a case-sensitive matcher accepts an address exactly when some window of the
/// address holds the text verbatim, character for character, with no case mapping; a
/// `Contains` matcher does the same after lowering ASCII capitals on both sides.
pub proof fn law_matcher_windows(m: &Matcher, s: Seq<char>)
    ensures
        m matches Matcher::CaseSensitive(sub) ==> (m.accepts(s) <==> exists|i: int|
            0 <= i && i + sub@.len() <= s.len() && #[trigger] s.skip(i).take(sub@.len() as int)
                == sub@),
        m matches Matcher::Contains(sub) ==> (m.accepts(s) <==> exists|i: int|
            0 <= i && i + sub@.len() <= s.len() && #[trigger] ascii_lower_seq(s).skip(i).take(
                sub@.len() as int,
            ) == ascii_lower_seq(sub@)),
{
    match m {
        Matcher::CaseSensitive(sub) => {
            law_contains_is_some_window(s, sub@);
        },
        Matcher::Contains(sub) => {
            law_contains_is_some_window(ascii_lower_seq(s), ascii_lower_seq(sub@));
            assert(ascii_lower_seq(s).len() == s.len());
            assert(ascii_lower_seq(sub@).len() == sub@.len());
        },
        Matcher::Regex(_) => {},
    }
}

/// Law: the matcher for a case-sensitive `--find` accepts an address exactly when the
/// text stands in it verbatim.
pub proof fn law_case_sensitive_find_is_verbatim(find: Seq<char>, m: &Matcher, s: Seq<char>)
    requires
        m matches Matcher::CaseSensitive(sub) && sub@ == find,
    ensures
        m.accepts(s) <==> exists|i: int|
            0 <= i && i + find.len() <= s.len() && #[trigger] s.skip(i).take(find.len() as int)
                == find,
{
    law_matcher_windows(m, s);
}

} // verus!
