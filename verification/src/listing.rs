//! The terms on which an offering may be listed, and the checks that decide them.

use vstd::prelude::*;

use crate::config::{
    MAX_DURATION_NANO, MIN_BUY_NOW_PRICE_YOCTO, MIN_DURATION_NANO, NFT_MAKE_COLLECTION_STORAGE,
    PRICE_STEP_YOCTO, TOTAL_SUPPLY_MAX,
};
use crate::context::CallContext;
use crate::dates::ParsedDate;
use crate::error::FpoError;

verus! {

/// The terms of an offering that passed every check.
#[derive(Debug, PartialEq, Eq, Structural, Clone, Copy)]
pub struct ListingTerms {
    pub supply_total: u64,
    pub buy_now_price_yocto: u128,
    /// `None` for an offering that sells at the buy-now price only.
    pub min_proposal_price_yocto: Option<u128>,
    pub start_timestamp: Option<i64>,
    pub end_timestamp: Option<i64>,
    /// Deposit forwarded to the NFT contract to store the new collection.
    pub storage_deposit_yocto: u128,
}

/// The deposit that storing a new NFT collection takes.
pub open spec fn storage_deposit(storage_byte_cost: u128) -> int {
    NFT_MAKE_COLLECTION_STORAGE * storage_byte_cost
}

/// The checks that every new offering passes first, in order: its supply,
/// then the deposit attached for the NFT collection's storage.
pub open spec fn supply_and_deposit_error(supply_total: u64, ctx: CallContext) -> Option<FpoError> {
    if !(0 < supply_total && supply_total <= TOTAL_SUPPLY_MAX) {
        Some(FpoError::SupplyOutOfRange)
    } else if storage_deposit(ctx.storage_byte_cost) > u128::MAX {
        Some(FpoError::DepositOverflow)
    } else if ctx.attached_deposit < storage_deposit(ctx.storage_byte_cost) {
        Some(FpoError::InsufficientDeposit { required: storage_deposit(ctx.storage_byte_cost) as u128 })
    } else {
        None
    }
}

/// An optional date that must not lie before `now`: absent stays absent, a
/// date that cannot be read is refused, an earlier one is refused with `past`.
pub open spec fn date_not_before(date: Option<ParsedDate>, now: i64, past: FpoError) -> Result<Option<i64>, FpoError> {
    match date {
        None => Ok(None),
        Some(ParsedDate::Malformed) => Err(FpoError::WrongDateFormat),
        Some(ParsedDate::OutOfRange) => Err(FpoError::DateOutOfRange),
        Some(ParsedDate::Nanos(t)) => if t >= now {
            Ok(Some(t))
        } else {
            Err(past)
        },
    }
}

/// The duration from start to end fits a signed 64-bit nanosecond count.
pub open spec fn duration_fits(start: i64, end: i64) -> bool {
    i64::MIN <= end - start <= i64::MAX
}

/// The outcome of listing an offering that sells at its buy-now price only:
/// the first check that fails, in the order supply, deposit, price, price
/// step, start date, end date, minimum duration (the last only when both dates
/// are given); else the terms.
pub open spec fn buy_now_only_terms(
    supply_total: u64,
    buy_now_price_yocto: u128,
    start: Option<ParsedDate>,
    end: Option<ParsedDate>,
    ctx: CallContext,
) -> Result<ListingTerms, FpoError> {
    if supply_and_deposit_error(supply_total, ctx) is Some {
        Err(supply_and_deposit_error(supply_total, ctx)->0)
    } else if buy_now_price_yocto < MIN_BUY_NOW_PRICE_YOCTO {
        Err(FpoError::PriceTooLow)
    } else if buy_now_price_yocto % PRICE_STEP_YOCTO != 0 {
        Err(FpoError::PriceNotMultipleOfStep)
    } else {
        match date_not_before(start, ctx.now(), FpoError::StartDateInPast) {
            Err(e) => Err(e),
            Ok(start_timestamp) => match date_not_before(end, ctx.now(), FpoError::EndDateInPast) {
                Err(e) => Err(e),
                Ok(end_timestamp) => {
                    if start_timestamp is Some && end_timestamp is Some && !duration_fits(
                        start_timestamp->0,
                        end_timestamp->0,
                    ) {
                        Err(FpoError::DurationOverflow)
                    } else if start_timestamp is Some && end_timestamp is Some && end_timestamp->0
                        - start_timestamp->0 < MIN_DURATION_NANO {
                        Err(FpoError::DurationTooShort)
                    } else {
                        Ok(
                            ListingTerms {
                                supply_total,
                                buy_now_price_yocto,
                                min_proposal_price_yocto: None,
                                start_timestamp,
                                end_timestamp,
                                storage_deposit_yocto: storage_deposit(ctx.storage_byte_cost) as u128,
                            },
                        )
                    }
                },
            },
        }
    }
}

/// The outcome of listing an offering that also accepts proposals: the first
/// check that fails, in the order supply, deposit, buy-now price, price steps,
/// minimum proposal price below the buy-now price, start date, end date
/// format; then, with a start date, the duration between the minimum and the
/// maximum, and without one, an end date not before the current block; else
/// the terms.
pub open spec fn accepting_proposals_terms(
    supply_total: u64,
    buy_now_price_yocto: u128,
    min_proposal_price_yocto: u128,
    start: Option<ParsedDate>,
    end: ParsedDate,
    ctx: CallContext,
) -> Result<ListingTerms, FpoError> {
    if supply_and_deposit_error(supply_total, ctx) is Some {
        Err(supply_and_deposit_error(supply_total, ctx)->0)
    } else if buy_now_price_yocto < MIN_BUY_NOW_PRICE_YOCTO {
        Err(FpoError::PriceTooLow)
    } else if buy_now_price_yocto % PRICE_STEP_YOCTO != 0 || min_proposal_price_yocto
        % PRICE_STEP_YOCTO != 0 {
        Err(FpoError::PricesNotMultipleOfStep)
    } else if buy_now_price_yocto <= min_proposal_price_yocto {
        Err(FpoError::MinProposalPriceNotLower)
    } else {
        match date_not_before(start, ctx.now(), FpoError::StartDateInPast) {
            Err(e) => Err(e),
            Ok(start_timestamp) => match end {
                ParsedDate::Malformed => Err(FpoError::WrongDateFormat),
                ParsedDate::OutOfRange => Err(FpoError::DateOutOfRange),
                ParsedDate::Nanos(end_timestamp) => {
                    let terms = ListingTerms {
                        supply_total,
                        buy_now_price_yocto,
                        min_proposal_price_yocto: Some(min_proposal_price_yocto),
                        start_timestamp,
                        end_timestamp: Some(end_timestamp),
                        storage_deposit_yocto: storage_deposit(ctx.storage_byte_cost) as u128,
                    };
                    match start_timestamp {
                        Some(s) => if !duration_fits(s, end_timestamp) {
                            Err(FpoError::DurationOverflow)
                        } else if end_timestamp - s < MIN_DURATION_NANO {
                            Err(FpoError::DurationTooShort)
                        } else if end_timestamp - s > MAX_DURATION_NANO {
                            Err(FpoError::DurationTooLong)
                        } else {
                            Ok(terms)
                        },
                        None => if end_timestamp < ctx.now() {
                            Err(FpoError::EndDateInPast)
                        } else {
                            Ok(terms)
                        },
                    }
                },
            },
        }
    }
}

fn check_supply_and_deposit(supply_total: u64, ctx: &CallContext) -> (r: Result<u128, FpoError>)
    ensures
        match supply_and_deposit_error(supply_total, *ctx) {
            Some(e) => r == Err::<u128, FpoError>(e),
            None => r == Ok::<u128, FpoError>(storage_deposit(ctx.storage_byte_cost) as u128),
        },
{
    if !(supply_total > 0 && supply_total <= TOTAL_SUPPLY_MAX) {
        return Err(FpoError::SupplyOutOfRange);
    }
    match NFT_MAKE_COLLECTION_STORAGE.checked_mul(ctx.storage_byte_cost) {
        None => Err(FpoError::DepositOverflow),
        Some(required) => {
            if ctx.attached_deposit < required {
                Err(FpoError::InsufficientDeposit { required })
            } else {
                Ok(required)
            }
        },
    }
}

fn check_date_not_before(date: Option<ParsedDate>, now: i64, past: FpoError) -> (r: Result<Option<i64>, FpoError>)
    ensures
        r == date_not_before(date, now, past),
{
    match date {
        None => Ok(None),
        Some(ParsedDate::Malformed) => Err(FpoError::WrongDateFormat),
        Some(ParsedDate::OutOfRange) => Err(FpoError::DateOutOfRange),
        Some(ParsedDate::Nanos(t)) => if t >= now {
            Ok(Some(t))
        } else {
            Err(past)
        },
    }
}

/// Checks the terms of an offering that sells at its buy-now price only,
/// given its dates as read.
pub fn check_buy_now_only(
    supply_total: u64,
    buy_now_price_yocto: u128,
    start: Option<ParsedDate>,
    end: Option<ParsedDate>,
    ctx: &CallContext,
) -> (r: Result<ListingTerms, FpoError>)
    ensures
        r == buy_now_only_terms(supply_total, buy_now_price_yocto, start, end, *ctx),
{
    let storage_deposit_yocto = match check_supply_and_deposit(supply_total, ctx) {
        Err(e) => return Err(e),
        Ok(d) => d,
    };
    if buy_now_price_yocto < MIN_BUY_NOW_PRICE_YOCTO {
        return Err(FpoError::PriceTooLow);
    }
    if buy_now_price_yocto % PRICE_STEP_YOCTO != 0 {
        return Err(FpoError::PriceNotMultipleOfStep);
    }
    let now = ctx.now_nanos();
    let start_timestamp = match check_date_not_before(start, now, FpoError::StartDateInPast) {
        Err(e) => return Err(e),
        Ok(t) => t,
    };
    let end_timestamp = match check_date_not_before(end, now, FpoError::EndDateInPast) {
        Err(e) => return Err(e),
        Ok(t) => t,
    };
    if let (Some(s), Some(e)) = (start_timestamp, end_timestamp) {
        match e.checked_sub(s) {
            None => return Err(FpoError::DurationOverflow),
            Some(duration) => {
                if duration < MIN_DURATION_NANO {
                    return Err(FpoError::DurationTooShort);
                }
            },
        }
    }
    Ok(
        ListingTerms {
            supply_total,
            buy_now_price_yocto,
            min_proposal_price_yocto: None,
            start_timestamp,
            end_timestamp,
            storage_deposit_yocto,
        },
    )
}

/// Checks the terms of an offering that also accepts proposals, given its
/// dates as read.
pub fn check_accepting_proposals(
    supply_total: u64,
    buy_now_price_yocto: u128,
    min_proposal_price_yocto: u128,
    start: Option<ParsedDate>,
    end: ParsedDate,
    ctx: &CallContext,
) -> (r: Result<ListingTerms, FpoError>)
    ensures
        r == accepting_proposals_terms(
            supply_total,
            buy_now_price_yocto,
            min_proposal_price_yocto,
            start,
            end,
            *ctx,
        ),
{
    let storage_deposit_yocto = match check_supply_and_deposit(supply_total, ctx) {
        Err(e) => return Err(e),
        Ok(d) => d,
    };
    if buy_now_price_yocto < MIN_BUY_NOW_PRICE_YOCTO {
        return Err(FpoError::PriceTooLow);
    }
    if buy_now_price_yocto % PRICE_STEP_YOCTO != 0 || min_proposal_price_yocto % PRICE_STEP_YOCTO
        != 0 {
        return Err(FpoError::PricesNotMultipleOfStep);
    }
    if buy_now_price_yocto <= min_proposal_price_yocto {
        return Err(FpoError::MinProposalPriceNotLower);
    }
    let now = ctx.now_nanos();
    let start_timestamp = match check_date_not_before(start, now, FpoError::StartDateInPast) {
        Err(e) => return Err(e),
        Ok(t) => t,
    };
    let end_timestamp = match end {
        ParsedDate::Malformed => return Err(FpoError::WrongDateFormat),
        ParsedDate::OutOfRange => return Err(FpoError::DateOutOfRange),
        ParsedDate::Nanos(t) => t,
    };
    match start_timestamp {
        Some(s) => match end_timestamp.checked_sub(s) {
            None => return Err(FpoError::DurationOverflow),
            Some(duration) => {
                if duration < MIN_DURATION_NANO {
                    return Err(FpoError::DurationTooShort);
                }
                if duration > MAX_DURATION_NANO {
                    return Err(FpoError::DurationTooLong);
                }
            },
        },
        None => {
            if end_timestamp < now {
                return Err(FpoError::EndDateInPast);
            }
        },
    }
    Ok(
        ListingTerms {
            supply_total,
            buy_now_price_yocto,
            min_proposal_price_yocto: Some(min_proposal_price_yocto),
            start_timestamp,
            end_timestamp: Some(end_timestamp),
            storage_deposit_yocto,
        },
    )
}

} // verus!
