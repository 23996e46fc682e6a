//! Why a call on an offering is refused.
//!
//! A refused call changes nothing: every operation of the library leaves the
//! marketplace as it found it when it returns one of these errors.

use vstd::prelude::*;

verus! {

/// The reasons for which a call is refused.
#[derive(Debug, PartialEq, Eq, Structural, Clone, Copy)]
pub enum FpoError {
    /// The supply is 0 or above the maximum.
    SupplyOutOfRange,
    /// The storage deposit for the NFT collection does not fit in a `u128`.
    DepositOverflow,
    /// The attached deposit does not cover the NFT collection's storage.
    InsufficientDeposit { required: u128 },
    /// The buy-now price is below the minimum.
    PriceTooLow,
    /// The buy-now price is not a multiple of the price step.
    PriceNotMultipleOfStep,
    /// The buy-now or the minimum proposal price is not a multiple of the price step.
    PricesNotMultipleOfStep,
    /// The minimum proposal price is not below the buy-now price.
    MinProposalPriceNotLower,
    /// A date is not in RFC 3339 form.
    WrongDateFormat,
    /// A date lies outside what a signed 64-bit nanosecond count can hold.
    DateOutOfRange,
    /// The start date lies before the current block.
    StartDateInPast,
    /// The end date lies before the current block.
    EndDateInPast,
    /// The span from start to end does not fit in a signed 64-bit nanosecond count.
    DurationOverflow,
    /// The offering would last less than the minimum duration.
    DurationTooShort,
    /// The offering would last more than the maximum duration.
    DurationTooLong,
    /// No collection id is left to give out.
    CollectionIdOverflow,
    /// No offering has the given id.
    ListingNotFound,
    /// Someone other than the offeror tried to accept proposals.
    OnlyOfferorCanAccept,
    /// Fewer acceptable proposals exist than were to be accepted.
    NotEnoughProposals { available: u64 },
    /// More proposals were to be accepted than the offering has supply left.
    SupplyUnderflow,
    /// The offering is still running.
    StillRunning,
    /// Someone other than the offeror tried to conclude the offering.
    OnlyOfferorCanConclude,
}

/// The text with which the contract reports an error (numbers are reported
/// beside it, in the variant's fields).
pub open spec fn error_text(e: FpoError) -> Seq<char> {
    match e {
        FpoError::SupplyOutOfRange => "Max NFT supply must be between 1 and 100."@,
        FpoError::DepositOverflow => "attempt to multiply with overflow"@,
        FpoError::InsufficientDeposit { .. } => "Must attach at least the NFT collection storage deposit in yoctoNear"@,
        FpoError::PriceTooLow => "Price cannot be lower than 1000 yoctoNear"@,
        FpoError::PriceNotMultipleOfStep => "Price must be integer multiple of 10 yoctoNear"@,
        FpoError::PricesNotMultipleOfStep => "Prices must be integer multiple of 10 yoctoNear"@,
        FpoError::MinProposalPriceNotLower => "Min proposal price must be lower than buy now price"@,
        FpoError::WrongDateFormat => "Wrong date format. Must be ISO8601/RFC3339 (f.ex. 2022-01-22T11:20:55+08:00)"@,
        FpoError::DateOutOfRange => "value can not be represented in a timestamp with nanosecond precision."@,
        FpoError::StartDateInPast => "Start date is into the past"@,
        FpoError::EndDateInPast => "End date is into the past"@,
        FpoError::DurationOverflow => "attempt to subtract with overflow"@,
        FpoError::DurationTooShort => "Offering duration too short"@,
        FpoError::DurationTooLong => "Offering duration too long"@,
        FpoError::CollectionIdOverflow => "attempt to add with overflow"@,
        FpoError::ListingNotFound => "Could not find NFT listing"@,
        FpoError::OnlyOfferorCanAccept => "Only the offeror can accept proposals"@,
        FpoError::NotEnoughProposals { .. } => "There's not enough proposals"@,
        FpoError::SupplyUnderflow => "attempt to subtract with overflow"@,
        FpoError::StillRunning => "Cannot conclude an offering while it's running"@,
        FpoError::OnlyOfferorCanConclude => "Only the offeror can conclude"@,
    }
}

impl FpoError {
    /// The text with which the contract reports this error.
    pub fn message(&self) -> (r: String)
        ensures
            r@ == error_text(*self),
    {
        let text: &str = match self {
            FpoError::SupplyOutOfRange => "Max NFT supply must be between 1 and 100.",
            FpoError::DepositOverflow => "attempt to multiply with overflow",
            FpoError::InsufficientDeposit { .. } => "Must attach at least the NFT collection storage deposit in yoctoNear",
            FpoError::PriceTooLow => "Price cannot be lower than 1000 yoctoNear",
            FpoError::PriceNotMultipleOfStep => "Price must be integer multiple of 10 yoctoNear",
            FpoError::PricesNotMultipleOfStep => "Prices must be integer multiple of 10 yoctoNear",
            FpoError::MinProposalPriceNotLower => "Min proposal price must be lower than buy now price",
            FpoError::WrongDateFormat => "Wrong date format. Must be ISO8601/RFC3339 (f.ex. 2022-01-22T11:20:55+08:00)",
            FpoError::DateOutOfRange => "value can not be represented in a timestamp with nanosecond precision.",
            FpoError::StartDateInPast => "Start date is into the past",
            FpoError::EndDateInPast => "End date is into the past",
            FpoError::DurationOverflow => "attempt to subtract with overflow",
            FpoError::DurationTooShort => "Offering duration too short",
            FpoError::DurationTooLong => "Offering duration too long",
            FpoError::CollectionIdOverflow => "attempt to add with overflow",
            FpoError::ListingNotFound => "Could not find NFT listing",
            FpoError::OnlyOfferorCanAccept => "Only the offeror can accept proposals",
            FpoError::NotEnoughProposals { .. } => "There's not enough proposals",
            FpoError::SupplyUnderflow => "attempt to subtract with overflow",
            FpoError::StillRunning => "Cannot conclude an offering while it's running",
            FpoError::OnlyOfferorCanConclude => "Only the offeror can conclude",
        };
        text.to_owned()
    }
}

} // verus!
