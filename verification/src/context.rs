//! What a call of the contract learns from its environment.

use vstd::prelude::*;

verus! {

/// The environment of one call: who made it, when, and with what deposit.
pub struct CallContext {
    /// The account that signed the transaction.
    pub signer_account_id: String,
    /// The account that called the contract directly.
    pub predecessor_account_id: String,
    /// Timestamp of the block, in nanoseconds since the Unix epoch.
    pub block_timestamp: u64,
    /// Deposit attached to the call, in yoctoNEAR.
    pub attached_deposit: u128,
    /// Price of one byte of storage, in yoctoNEAR.
    pub storage_byte_cost: u128,
}

impl CallContext {
    /// The block time as the signed nanosecond count that offerings are compared with.
    pub open spec fn now(&self) -> i64 {
        self.block_timestamp as i64
    }

    /// The block time as a signed nanosecond count (a plain two's-complement reading).
    pub fn now_nanos(&self) -> (r: i64)
        ensures
            r == self.now(),
    {
        self.block_timestamp as i64
    }
}

} // verus!
