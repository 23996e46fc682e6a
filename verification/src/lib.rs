//! Fixed-price offerings ("FPO") of NFT collections on a marketplace:
//! listing an offering, accepting the best proposals placed on it, and
//! concluding it.
//!
//! The marketplace state is held as plain values; the surrounding contract
//! persists it, reads the call's environment into a [`context::CallContext`]
//! and turns the actions returned by the library into cross-contract calls.

pub mod config;
pub mod context;
pub mod dates;
pub mod error;
pub mod index;
pub mod laws;
pub mod listing;
pub mod marketplace;
pub mod offering;
