//! Limits that every offering is held to.

use vstd::prelude::*;

verus! {

/// Largest number of NFTs a single offering may put up.
pub const TOTAL_SUPPLY_MAX: u64 = 100;

/// Lowest buy-now price, in yoctoNEAR.
pub const MIN_BUY_NOW_PRICE_YOCTO: u128 = 1000;

/// Every price is a whole multiple of this step, in yoctoNEAR.
pub const PRICE_STEP_YOCTO: u128 = 10;

/// Shortest offering with both a start and an end date: one hour, in nanoseconds.
pub const MIN_DURATION_NANO: i64 = 3_600_000_000_000;

/// Longest offering that accepts proposals: 21 days, in nanoseconds.
pub const MAX_DURATION_NANO: i64 = 1_814_400_000_000_000;

/// Bytes of storage that creating an NFT collection takes on the NFT contract.
pub const NFT_MAKE_COLLECTION_STORAGE: u128 = 838;

} // verus!
