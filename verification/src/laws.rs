//! Properties that hold of the library as a whole.

use vstd::prelude::*;

use crate::config::{
    MAX_DURATION_NANO, MIN_BUY_NOW_PRICE_YOCTO, MIN_DURATION_NANO, NFT_MAKE_COLLECTION_STORAGE,
    PRICE_STEP_YOCTO, TOTAL_SUPPLY_MAX,
};
use crate::context::CallContext;
use crate::dates::ParsedDate;
use crate::listing::{accepting_proposals_terms, buy_now_only_terms, ListingTerms};
use crate::marketplace::{offering_from_terms, MarketplaceView};
use crate::offering::{FixedPriceOfferingStatus, FpoView, OfferingIdView};

verus! {

/// Accepting `a` proposals and then `b` more leaves the offering exactly as
/// accepting `a + b` at once does; the second batch is the `b` proposals
/// ranked just below the first.
pub proof fn law_accepting_in_batches(f: FpoView, a: nat, b: nat)
    requires
        a + b <= f.acceptable_proposals.len(),
        a + b <= f.supply_left,
    ensures
        f.after_accepting(a).after_accepting(b) == f.after_accepting(a + b),
        f.after_accepting(a).best_proposals(b) + f.best_proposals(a) == f.best_proposals(a + b),
{
    let n = f.acceptable_proposals.len();
    let g = f.after_accepting(a);
    let both = f.best_proposals(a + b);
    let first = f.best_proposals(a);
    let second = g.best_proposals(b);
    assert(second + first =~= both);
    assert(both.to_set() =~= first.to_set().union(second.to_set())) by {
        assert forall|x: u64| both.to_set().contains(x) <==> first.to_set().union(second.to_set()).contains(x) by {
            if both.to_set().contains(x) {
                let k = choose|k: int| 0 <= k < both.len() && both[k] == x;
                if k < b {
                    assert(second[k] == x);
                } else {
                    assert(first[k - b] == x);
                }
            }
            if first.to_set().contains(x) {
                let k = choose|k: int| 0 <= k < first.len() && first[k] == x;
                assert(both[k + b] == x);
            }
            if second.to_set().contains(x) {
                let k = choose|k: int| 0 <= k < second.len() && second[k] == x;
                assert(both[k] == x);
            }
        }
    }
    let h = g.after_accepting(b);
    let direct = f.after_accepting(a + b);
    assert(h.acceptable_proposals =~= direct.acceptable_proposals);
    assert(h.proposals =~= direct.proposals);
    assert(h.proposals_by_proposer == direct.proposals_by_proposer);
}

/// An accepted proposal is gone from the offering: from its proposals, from
/// its proposer's set and from the acceptable list; and the supply left
/// shrinks by exactly the number accepted.
pub proof fn law_accepted_proposals_leave(f: FpoView, count: nat, id: u64)
    requires
        f.consistent(),
        count <= f.acceptable_proposals.len(),
        count <= f.supply_left,
        f.best_proposals(count).contains(id),
    ensures
        !f.after_accepting(count).proposals.contains_key(id),
        forall|a: Seq<char>| #[trigger]
            f.after_accepting(count).proposals_by_proposer.contains_key(a)
                ==> !f.after_accepting(count).proposals_by_proposer[a].contains(id),
        !f.after_accepting(count).acceptable_proposals.contains(id),
        f.after_accepting(count).supply_left + count == f.supply_left,
{
    let g = f.after_accepting(count);
    let best = f.best_proposals(count);
    let n = f.acceptable_proposals.len();
    let k = choose|k: int| 0 <= k < best.len() && best[k] == id;
    assert(best.to_set().contains(id));
    if g.acceptable_proposals.contains(id) {
        let j = choose|j: int| 0 <= j < g.acceptable_proposals.len() && g.acceptable_proposals[j] == id;
        assert(f.acceptable_proposals[j] == f.acceptable_proposals[n - count + k]);
    }
}

/// The offeror index lists exactly each offeror's offerings.
pub proof fn law_offeror_index_lists_offerings(m: MarketplaceView, a: Seq<char>, k: OfferingIdView)
    requires
        m.consistent(),
    ensures
        (m.fpos_by_offeror.contains_key(a) && m.fpos_by_offeror[a].contains(k)) <==> (
        m.fpos.contains_key(k) && m.fpos[k].offeror_id == a),
{
}

/// Two listings in a row are filed under two consecutive collection ids,
/// each with its own terms and offeror.
pub proof fn law_listings_get_distinct_ids(
    m: MarketplaceView,
    t1: ListingTerms,
    o1: Seq<char>,
    t2: ListingTerms,
    o2: Seq<char>,
)
    requires
        m.next_collection_id + 2 <= u64::MAX,
    ensures
        ({
            let after = m.with_listing(t1, o1).with_listing(t2, o2);
            let k1 = m.next_offering_id();
            let k2 = OfferingIdView {
                nft_contract_id: m.nft_contract_id,
                collection_id: (m.next_collection_id + 1) as u64,
            };
            &&& k1 != k2
            &&& after.fpos.contains_key(k1)
            &&& after.fpos[k1] == offering_from_terms(t1, k1, o1)
            &&& after.fpos.contains_key(k2)
            &&& after.fpos[k2] == offering_from_terms(t2, k2, o2)
            &&& after.next_collection_id == m.next_collection_id + 2
        }),
{
}

/// A concluded offering is gone: not filed under its id, nor under its offeror.
pub proof fn law_concluded_offering_is_gone(m: MarketplaceView, k: OfferingIdView, a: Seq<char>)
    requires
        m.consistent(),
    ensures
        !m.with_offerings(m.fpos.remove(k)).fpos.contains_key(k),
        m.with_offerings(m.fpos.remove(k)).fpos_by_offeror.contains_key(a) ==> !m.with_offerings(
            m.fpos.remove(k),
        ).fpos_by_offeror[a].contains(k),
{
}

/// An offering with nothing left has ended, whatever the time, so its
/// offeror may always conclude it.
pub proof fn law_sold_out_offering_can_conclude(m: MarketplaceView, k: OfferingIdView, now: i64)
    requires
        m.fpos.contains_key(k),
        m.fpos[k].supply_left == 0,
    ensures
        m.fpos[k].status_at(now) == FixedPriceOfferingStatus::Ended,
        m.conclude_error(k, now, m.fpos[k].offeror_id) is None,
{
}

/// An offering that sells at the buy-now price only is listed on valid
/// terms only: a supply from 1 to the maximum, a buy-now price of at least the
/// minimum in whole price steps, no proposals, dates not before the current
/// block, and at least the minimum duration when both dates are given.
pub proof fn law_buy_now_only_terms_valid(
    supply_total: u64,
    buy_now_price_yocto: u128,
    start: Option<ParsedDate>,
    end: Option<ParsedDate>,
    ctx: CallContext,
)
    requires
        buy_now_only_terms(supply_total, buy_now_price_yocto, start, end, ctx) is Ok,
    ensures
        ({
            let t = buy_now_only_terms(supply_total, buy_now_price_yocto, start, end, ctx)->Ok_0;
            &&& 1 <= t.supply_total <= TOTAL_SUPPLY_MAX
            &&& t.buy_now_price_yocto >= MIN_BUY_NOW_PRICE_YOCTO
            &&& t.buy_now_price_yocto % PRICE_STEP_YOCTO == 0
            &&& t.min_proposal_price_yocto is None
            &&& t.start_timestamp matches Some(s) ==> s >= ctx.now()
            &&& t.end_timestamp matches Some(e) ==> e >= ctx.now()
            &&& (t.start_timestamp is Some && t.end_timestamp is Some) ==> t.end_timestamp->0
                - t.start_timestamp->0 >= MIN_DURATION_NANO
        }),
{
}

/// An offering that accepts proposals is listed on valid terms only: a
/// supply from 1 to the maximum, a buy-now price of at least the minimum, a
/// minimum proposal price below it, both in whole price steps, an end date not
/// before the current block, and with a start date not before it either, a
/// duration between the minimum and the maximum.
pub proof fn law_accepting_proposals_terms_valid(
    supply_total: u64,
    buy_now_price_yocto: u128,
    min_proposal_price_yocto: u128,
    start: Option<ParsedDate>,
    end: ParsedDate,
    ctx: CallContext,
)
    requires
        accepting_proposals_terms(
            supply_total,
            buy_now_price_yocto,
            min_proposal_price_yocto,
            start,
            end,
            ctx,
        ) is Ok,
    ensures
        ({
            let t = accepting_proposals_terms(
                supply_total,
                buy_now_price_yocto,
                min_proposal_price_yocto,
                start,
                end,
                ctx,
            )->Ok_0;
            &&& 1 <= t.supply_total <= TOTAL_SUPPLY_MAX
            &&& t.buy_now_price_yocto >= MIN_BUY_NOW_PRICE_YOCTO
            &&& t.buy_now_price_yocto % PRICE_STEP_YOCTO == 0
            &&& t.min_proposal_price_yocto == Some(min_proposal_price_yocto)
            &&& min_proposal_price_yocto < t.buy_now_price_yocto
            &&& min_proposal_price_yocto % PRICE_STEP_YOCTO == 0
            &&& t.end_timestamp is Some
            &&& t.end_timestamp->0 >= ctx.now()
            &&& t.start_timestamp matches Some(s) ==> {
                &&& s >= ctx.now()
                &&& MIN_DURATION_NANO <= t.end_timestamp->0 - s <= MAX_DURATION_NANO
            }
        }),
{
}

/// The checks on supply, deposit and buy-now price that every listing passes
/// before its dates are looked at, written out.
pub open spec fn listing_basics_pass(supply_total: u64, buy_now_price_yocto: u128, ctx: CallContext) -> bool {
    &&& 1 <= supply_total <= TOTAL_SUPPLY_MAX
    &&& NFT_MAKE_COLLECTION_STORAGE * ctx.storage_byte_cost <= u128::MAX
    &&& ctx.attached_deposit >= NFT_MAKE_COLLECTION_STORAGE * ctx.storage_byte_cost
    &&& buy_now_price_yocto >= MIN_BUY_NOW_PRICE_YOCTO
    &&& buy_now_price_yocto % PRICE_STEP_YOCTO == 0
}

/// An offering that accepts proposals and has no start date starts at once;
/// its end date is then only held to not lying in the past: any end date from
/// the current block on, however far, is listed as given.
pub proof fn law_accepting_without_start_date_only_needs_future_end(
    supply_total: u64,
    buy_now_price_yocto: u128,
    min_proposal_price_yocto: u128,
    end: i64,
    ctx: CallContext,
)
    requires
        listing_basics_pass(supply_total, buy_now_price_yocto, ctx),
        min_proposal_price_yocto % PRICE_STEP_YOCTO == 0,
        min_proposal_price_yocto < buy_now_price_yocto,
    ensures
        end >= ctx.now() ==> accepting_proposals_terms(
            supply_total,
            buy_now_price_yocto,
            min_proposal_price_yocto,
            None,
            ParsedDate::Nanos(end),
            ctx,
        ) == Ok::<ListingTerms, crate::error::FpoError>(
            ListingTerms {
                supply_total,
                buy_now_price_yocto,
                min_proposal_price_yocto: Some(min_proposal_price_yocto),
                start_timestamp: None,
                end_timestamp: Some(end),
                storage_deposit_yocto: (NFT_MAKE_COLLECTION_STORAGE * ctx.storage_byte_cost) as u128,
            },
        ),
        end < ctx.now() ==> accepting_proposals_terms(
            supply_total,
            buy_now_price_yocto,
            min_proposal_price_yocto,
            None,
            ParsedDate::Nanos(end),
            ctx,
        ) == Err::<ListingTerms, crate::error::FpoError>(crate::error::FpoError::EndDateInPast),
{
}

/// With a start date not in the past, an offering that accepts proposals is
/// judged on its duration end − start alone: listed as given when it lies
/// between the minimum and the maximum, refused as too short below, as too
/// long above — however far the start lies from the current block.
pub proof fn law_accepting_duration_is_measured_from_start(
    supply_total: u64,
    buy_now_price_yocto: u128,
    min_proposal_price_yocto: u128,
    start: i64,
    end: i64,
    ctx: CallContext,
)
    requires
        listing_basics_pass(supply_total, buy_now_price_yocto, ctx),
        min_proposal_price_yocto % PRICE_STEP_YOCTO == 0,
        min_proposal_price_yocto < buy_now_price_yocto,
        start >= ctx.now(),
        i64::MIN <= end - start <= i64::MAX,
    ensures
        ({
            let r = accepting_proposals_terms(
                supply_total,
                buy_now_price_yocto,
                min_proposal_price_yocto,
                Some(ParsedDate::Nanos(start)),
                ParsedDate::Nanos(end),
                ctx,
            );
            &&& MIN_DURATION_NANO <= end - start <= MAX_DURATION_NANO ==> r == Ok::<
                ListingTerms,
                crate::error::FpoError,
            >(
                ListingTerms {
                    supply_total,
                    buy_now_price_yocto,
                    min_proposal_price_yocto: Some(min_proposal_price_yocto),
                    start_timestamp: Some(start),
                    end_timestamp: Some(end),
                    storage_deposit_yocto: (NFT_MAKE_COLLECTION_STORAGE * ctx.storage_byte_cost) as u128,
                },
            )
            &&& end - start < MIN_DURATION_NANO ==> r == Err::<ListingTerms, crate::error::FpoError>(
                crate::error::FpoError::DurationTooShort,
            )
            &&& end - start > MAX_DURATION_NANO ==> r == Err::<ListingTerms, crate::error::FpoError>(
                crate::error::FpoError::DurationTooLong,
            )
        }),
{
}

/// A buy-now-only offering needs a minimum duration only when it has both
/// dates: with one date, or none, any date not in the past is listed as given.
pub proof fn law_buy_now_single_date_has_no_duration_limit(
    supply_total: u64,
    buy_now_price_yocto: u128,
    date: i64,
    ctx: CallContext,
)
    requires
        listing_basics_pass(supply_total, buy_now_price_yocto, ctx),
        date >= ctx.now(),
    ensures
        buy_now_only_terms(supply_total, buy_now_price_yocto, Some(ParsedDate::Nanos(date)), None, ctx)
            == Ok::<ListingTerms, crate::error::FpoError>(
            ListingTerms {
                supply_total,
                buy_now_price_yocto,
                min_proposal_price_yocto: None,
                start_timestamp: Some(date),
                end_timestamp: None,
                storage_deposit_yocto: (NFT_MAKE_COLLECTION_STORAGE * ctx.storage_byte_cost) as u128,
            },
        ),
        buy_now_only_terms(supply_total, buy_now_price_yocto, None, Some(ParsedDate::Nanos(date)), ctx)
            == Ok::<ListingTerms, crate::error::FpoError>(
            ListingTerms {
                supply_total,
                buy_now_price_yocto,
                min_proposal_price_yocto: None,
                start_timestamp: None,
                end_timestamp: Some(date),
                storage_deposit_yocto: (NFT_MAKE_COLLECTION_STORAGE * ctx.storage_byte_cost) as u128,
            },
        ),
        buy_now_only_terms(supply_total, buy_now_price_yocto, None, None, ctx) == Ok::<
            ListingTerms,
            crate::error::FpoError,
        >(
            ListingTerms {
                supply_total,
                buy_now_price_yocto,
                min_proposal_price_yocto: None,
                start_timestamp: None,
                end_timestamp: None,
                storage_deposit_yocto: (NFT_MAKE_COLLECTION_STORAGE * ctx.storage_byte_cost) as u128,
            },
        ),
{
}

/// The status of an offering, written out: not started only while it has
/// supply left and a start date still ahead (an offering without a start date
/// starts when listed); ended once sold out, or once its end date is reached
/// after it started; running otherwise — in particular whenever it has supply
/// left, has started and has no end date.
pub proof fn law_status_at(f: FpoView, now: i64)
    ensures
        (f.status_at(now) == FixedPriceOfferingStatus::Unstarted) <==> (f.supply_left > 0
            && f.start_timestamp is Some && now < f.start_timestamp->0),
        (f.status_at(now) == FixedPriceOfferingStatus::Ended) <==> (f.supply_left == 0 || (!(
        f.start_timestamp is Some && now < f.start_timestamp->0) && f.end_timestamp is Some && now
            >= f.end_timestamp->0)),
        (f.status_at(now) == FixedPriceOfferingStatus::Running) <==> (f.supply_left > 0 && (
        f.start_timestamp is None || f.start_timestamp->0 <= now) && (f.end_timestamp is None || now
            < f.end_timestamp->0)),
{
}

/// A running offering cannot be concluded, by anyone, with or without an end
/// date: while it has supply left, has started (or has no start date) and
/// has not reached an end date, concluding is refused as still running.
pub proof fn law_running_offering_cannot_conclude(
    m: MarketplaceView,
    k: OfferingIdView,
    now: i64,
    caller: Seq<char>,
)
    requires
        m.fpos.contains_key(k),
        m.fpos[k].supply_left > 0,
        m.fpos[k].start_timestamp is None || m.fpos[k].start_timestamp->0 <= now,
        m.fpos[k].end_timestamp is None || now < m.fpos[k].end_timestamp->0,
    ensures
        m.conclude_error(k, now, caller) == Some(crate::error::FpoError::StillRunning),
{
}

/// A buy-now-only offering with both dates, neither in the past, is listed as
/// given exactly when it lasts at least the minimum duration (no maximum
/// applies), and is refused as too short otherwise.
pub proof fn law_buy_now_both_dates_need_only_minimum_duration(
    supply_total: u64,
    buy_now_price_yocto: u128,
    start: i64,
    end: i64,
    ctx: CallContext,
)
    requires
        listing_basics_pass(supply_total, buy_now_price_yocto, ctx),
        start >= ctx.now(),
        end >= ctx.now(),
        i64::MIN <= end - start <= i64::MAX,
    ensures
        ({
            let r = buy_now_only_terms(
                supply_total,
                buy_now_price_yocto,
                Some(ParsedDate::Nanos(start)),
                Some(ParsedDate::Nanos(end)),
                ctx,
            );
            &&& end - start >= MIN_DURATION_NANO ==> r == Ok::<ListingTerms, crate::error::FpoError>(
                ListingTerms {
                    supply_total,
                    buy_now_price_yocto,
                    min_proposal_price_yocto: None,
                    start_timestamp: Some(start),
                    end_timestamp: Some(end),
                    storage_deposit_yocto: (NFT_MAKE_COLLECTION_STORAGE * ctx.storage_byte_cost) as u128,
                },
            )
            &&& end - start < MIN_DURATION_NANO ==> r == Err::<ListingTerms, crate::error::FpoError>(
                crate::error::FpoError::DurationTooShort,
            )
        }),
{
}

/// A listing out of supply range is refused for that, whatever else it holds;
/// with the supply and deposit right, a buy-now price below the minimum is
/// refused for that, whatever the dates.
pub proof fn law_listing_refusals_come_in_order(
    supply_total: u64,
    buy_now_price_yocto: u128,
    min_proposal_price_yocto: u128,
    start: Option<ParsedDate>,
    end: ParsedDate,
    ctx: CallContext,
)
    ensures
        !(1 <= supply_total <= TOTAL_SUPPLY_MAX) ==> {
            &&& buy_now_only_terms(supply_total, buy_now_price_yocto, start, Some(end), ctx) == Err::<
                ListingTerms,
                crate::error::FpoError,
            >(crate::error::FpoError::SupplyOutOfRange)
            &&& accepting_proposals_terms(
                supply_total,
                buy_now_price_yocto,
                min_proposal_price_yocto,
                start,
                end,
                ctx,
            ) == Err::<ListingTerms, crate::error::FpoError>(crate::error::FpoError::SupplyOutOfRange)
        },
        (1 <= supply_total <= TOTAL_SUPPLY_MAX && NFT_MAKE_COLLECTION_STORAGE * ctx.storage_byte_cost
            <= ctx.attached_deposit && buy_now_price_yocto < MIN_BUY_NOW_PRICE_YOCTO) ==> {
            &&& buy_now_only_terms(supply_total, buy_now_price_yocto, start, Some(end), ctx) == Err::<
                ListingTerms,
                crate::error::FpoError,
            >(crate::error::FpoError::PriceTooLow)
            &&& accepting_proposals_terms(
                supply_total,
                buy_now_price_yocto,
                min_proposal_price_yocto,
                start,
                end,
                ctx,
            ) == Err::<ListingTerms, crate::error::FpoError>(crate::error::FpoError::PriceTooLow)
        },
{
}

/// Concluding is allowed exactly to the offeror of an existing offering that
/// is not running: one not started (supply left, start date ahead) or ended
/// (sold out, or its end date reached).
pub proof fn law_who_may_conclude(m: MarketplaceView, k: OfferingIdView, now: i64, caller: Seq<char>)
    ensures
        m.conclude_error(k, now, caller) is None <==> ({
            &&& m.fpos.contains_key(k)
            &&& caller == m.fpos[k].offeror_id
            &&& (m.fpos[k].supply_left == 0 || (m.fpos[k].start_timestamp is Some && now
                < m.fpos[k].start_timestamp->0) || (m.fpos[k].end_timestamp is Some && now
                >= m.fpos[k].end_timestamp->0))
        }),
        !m.fpos.contains_key(k) ==> m.conclude_error(k, now, caller) == Some(
            crate::error::FpoError::ListingNotFound,
        ),
{
}

/// Accepting is allowed exactly to the offeror of an existing offering, for
/// no more proposals than are acceptable and no more than the supply left.
pub proof fn law_who_may_accept(m: MarketplaceView, k: OfferingIdView, count: u64, caller: Seq<char>)
    ensures
        m.accept_error(k, count, caller) is None <==> ({
            &&& m.fpos.contains_key(k)
            &&& caller == m.fpos[k].offeror_id
            &&& count <= m.fpos[k].acceptable_proposals.len()
            &&& count <= m.fpos[k].supply_left
        }),
        !m.fpos.contains_key(k) ==> m.accept_error(k, count, caller) == Some(
            crate::error::FpoError::ListingNotFound,
        ),
        (m.fpos.contains_key(k) && caller != m.fpos[k].offeror_id) ==> m.accept_error(k, count, caller)
            == Some(crate::error::FpoError::OnlyOfferorCanAccept),
{
}

} // verus!
