//! Search logic for XRP Ledger vanity addresses: pattern validation,
//! address matching, key derivation and the texts the finder shows.

pub mod keys;
pub mod matcher;
pub mod numbers;
pub mod onepassword;
pub mod report;
pub mod search;
pub mod text;
pub mod validate;
