//! Key algorithms, family seeds and the classic addresses they derive.

use vstd::prelude::*;
use ripple_keypairs::{Algorithm, Entropy, Seed};

verus! {

/// The signature scheme that a family seed derives its keypair with.
#[derive(Clone, Copy, Debug, PartialEq, Eq, Structural)]
pub enum KeyAlgorithm {
    Ed25519,
    Secp256k1,
}

/// The base58 family seed (`s...`) that encodes `entropy` for `algorithm`, as
/// `ripple_keypairs::Seed`'s `Display` writes it.
pub uninterp spec fn encoded_family_seed(entropy: Seq<u8>, algorithm: KeyAlgorithm) -> Seq<char>;

/// The classic address (`r...`) of the keypair that the seed of `entropy` derives for
/// `algorithm`, as `Seed::derive_keypair` and `PublicKey::derive_address` compute it;
/// `None` where `derive_keypair` fails.
pub uninterp spec fn derived_classic_address(entropy: Seq<u8>, algorithm: KeyAlgorithm) -> Option<
    Seq<char>,
>;

/// Calls `Seed::new(Entropy::Array(entropy), algorithm)` and then `to_string` on the seed.
/// The encoding is named, not stated.
#[verifier::external_body]
fn family_seed_text(entropy: [u8; 16], algorithm: KeyAlgorithm) -> (s: String)
    ensures
        s@ == encoded_family_seed(entropy@, algorithm),
{
    let kind: &'static Algorithm = match algorithm {
        KeyAlgorithm::Ed25519 => &Algorithm::Ed25519,
        KeyAlgorithm::Secp256k1 => &Algorithm::Secp256k1,
    };
    Seed::new(Entropy::Array(entropy), kind).to_string()
}

/// Calls `Seed::derive_keypair` on the seed of `entropy` and `algorithm`, then
/// `PublicKey::derive_address` on the public key. The address is named, not stated; the
/// crate's documentation shows that it starts with `r` (a classic address encodes a
/// leading zero byte, which the ripple base58 alphabet writes as `r`).
#[verifier::external_body]
fn classic_address(entropy: [u8; 16], algorithm: KeyAlgorithm) -> (r: Option<String>)
    ensures
        match r {
            Some(a) => derived_classic_address(entropy@, algorithm) == Some(a@),
            None => derived_classic_address(entropy@, algorithm) is None,
        },
        r matches Some(a) ==> a@.len() > 0 && a@[0] == 'r',
{
    let kind: &'static Algorithm = match algorithm {
        KeyAlgorithm::Ed25519 => &Algorithm::Ed25519,
        KeyAlgorithm::Secp256k1 => &Algorithm::Secp256k1,
    };
    match Seed::new(Entropy::Array(entropy), kind).derive_keypair() {
        Ok((_, public_key)) => Some(public_key.derive_address()),
        Err(_) => None,
    }
}

/// A candidate wallet: its family seed and its classic address.
#[derive(Debug)]
pub struct Trial {
    pub seed: String,
    pub address: String,
}

/// The wallet that `entropy` gives for `algorithm`, or `None` where its keypair cannot be
/// derived.
pub fn derive_trial(entropy: [u8; 16], algorithm: KeyAlgorithm) -> (r: Option<Trial>)
    ensures
        derived_classic_address(entropy@, algorithm) is None ==> r is None,
        derived_classic_address(entropy@, algorithm) matches Some(a) ==> (r matches Some(t)
            && t.address@ == a && t.seed@ == encoded_family_seed(entropy@, algorithm)),
        r matches Some(t) ==> t.address@.len() > 0 && t.address@[0] == 'r',
{
    let seed = family_seed_text(entropy, algorithm);
    match classic_address(entropy, algorithm) {
        Some(address) => Some(Trial { seed, address }),
        None => None,
    }
}

} // verus!
