//! Which candidate addresses a search keeps.

use vstd::prelude::*;
use crate::keys::KeyAlgorithm;
use crate::matcher::Matcher;
use crate::text::{
    chars_of, ends_with_chars, ends_with_seq, law_ends_with_is_trailing_chars,
    law_starts_with_is_leading_chars, starts_with_chars, starts_with_seq,
};

verus! {

/// What every search worker shares: the key algorithm, the prefix wanted after the
/// leading `r`, the suffix, the byte length of `--find`, whether found wallets go to
/// 1Password, and the vault they go to.
pub struct SearchConfig {
    pub algorithm: KeyAlgorithm,
    pub begins: String,
    pub ends: String,
    pub find_len: usize,
    pub onep: bool,
    pub vault: String,
}

impl SearchConfig {
    /// `address` begins with `r` and `begins`, ends with `ends`, and is accepted by
    /// `matcher`; each test is skipped when its pattern is empty.
    pub open spec fn wants(&self, matcher: &Matcher, address: Seq<char>) -> bool {
        &&& (self.begins@.len() == 0 || starts_with_seq(address, seq!['r'] + self.begins@))
        &&& (self.ends@.len() == 0 || ends_with_seq(address, self.ends@))
        &&& (self.find_len == 0 || matcher.accepts(address))
    }

    /// Whether `address` satisfies all the patterns of the search.
    pub fn address_matches(&self, matcher: &Matcher, address: &str) -> (b: bool)
        ensures
            b == self.wants(matcher, address@),
            b <==> {
                &&& (self.begins@.len() == 0 || (address@.len() >= self.begins@.len() + 1
                    && address@[0] == 'r' && forall|j: int|
                    0 <= j < self.begins@.len() ==> address@[j + 1] == #[trigger] self.begins@[j]))
                &&& (self.ends@.len() == 0 || (address@.len() >= self.ends@.len() && forall|j: int|
                    0 <= j < self.ends@.len() ==> address@[address@.len() - self.ends@.len() + j]
                        == #[trigger] self.ends@[j]))
                &&& (self.find_len == 0 || matcher.accepts(address@))
            },
    {
        proof {
            law_kept_address_begins_and_ends(self, matcher, address@);
        }
        let a = chars_of(address);
        let match_begins = if self.begins.as_str().is_empty() {
            true
        } else {
            let mut prefix = chars_of(self.begins.as_str());
            prefix.insert(0, 'r');
            assert(prefix@ =~= seq!['r'] + self.begins@);
            starts_with_chars(&a, &prefix)
        };
        let match_ends = self.ends.as_str().is_empty() || ends_with_chars(
            &a,
            &chars_of(self.ends.as_str()),
        );
        let match_find = self.find_len == 0 || matcher.matches(address);
        match_begins && match_ends && match_find
    }

    /// Whether a worker reports `address`: it satisfies the patterns, and when found
    /// wallets go to 1Password it is not one already found.
    pub fn trial_wanted(&self, matcher: &Matcher, address: &str, already_found: bool) -> (b: bool)
        ensures
            b == (!(self.onep && already_found) && self.wants(matcher, address@)),
            b <==> {
                &&& !(self.onep && already_found)
                &&& (self.begins@.len() == 0 || (address@.len() >= self.begins@.len() + 1
                    && address@[0] == 'r' && forall|j: int|
                    0 <= j < self.begins@.len() ==> address@[j + 1] == #[trigger] self.begins@[j]))
                &&& (self.ends@.len() == 0 || (address@.len() >= self.ends@.len() && forall|j: int|
                    0 <= j < self.ends@.len() ==> address@[address@.len() - self.ends@.len() + j]
                        == #[trigger] self.ends@[j]))
                &&& (self.find_len == 0 || matcher.accepts(address@))
            },
    {
        proof {
            law_kept_address_begins_and_ends(self, matcher, address@);
        }
        if self.onep && already_found {
            return false;
        }
        self.address_matches(matcher, address)
    }
}

/// Law: a search keeps an address exactly when, for each pattern given, the address
/// begins with `r` and then the characters of `begins`, one by one; its last characters
/// are those of `ends`, one by one; and the matcher accepts it. A prefix or suffix
/// that occurs elsewhere in the address does not count.
pub proof fn law_kept_address_begins_and_ends(
    config: &SearchConfig,
    matcher: &Matcher,
    address: Seq<char>,
)
    ensures
        config.wants(matcher, address) <==> {
            &&& (config.begins@.len() == 0 || (address.len() >= config.begins@.len() + 1
                && address[0] == 'r' && forall|j: int|
                0 <= j < config.begins@.len() ==> address[j + 1] == #[trigger] config.begins@[j]))
            &&& (config.ends@.len() == 0 || (address.len() >= config.ends@.len() && forall|j: int|
                0 <= j < config.ends@.len() ==> address[address.len() - config.ends@.len() + j]
                    == #[trigger] config.ends@[j]))
            &&& (config.find_len == 0 || matcher.accepts(address))
        },
{
    let begins = config.begins@;
    let prefix = seq!['r'] + begins;
    law_starts_with_is_leading_chars(address, prefix);
    law_ends_with_is_trailing_chars(address, config.ends@);
    assert(prefix[0] == 'r');
    assert forall|j: int| 0 <= j < begins.len() implies prefix[j + 1] == #[trigger] begins[j] by {}
    if begins.len() > 0 {
        if starts_with_seq(address, prefix) {
            assert(address[0] == prefix[0]);
            assert forall|j: int| 0 <= j < begins.len() implies address[j + 1]
                == #[trigger] begins[j] by {
                assert(address[j + 1] == prefix[j + 1]);
            }
        }
        if address.len() >= begins.len() + 1 && address[0] == 'r' && forall|j: int|
            0 <= j < begins.len() ==> address[j + 1] == #[trigger] begins[j] {
            assert forall|k: int| 0 <= k < prefix.len() implies address[k] == #[trigger] prefix[k] by {
                if k > 0 {
                    assert(begins[k - 1] == prefix[k]);
                    assert(address[(k - 1) + 1] == begins[k - 1]);
                }
            }
        }
    }
}

} // verus!
