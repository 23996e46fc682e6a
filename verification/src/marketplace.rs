//! The marketplace's offerings: listing, accepting proposals, concluding.

use std::collections::HashMap;
use vstd::prelude::*;

use crate::context::CallContext;
use crate::dates::{parsed_date_of, read_optional_date, read_rfc3339, rfc3339_timestamp_nanos, ParsedDate};
use crate::error::FpoError;
use crate::index::{AccountIndex, IndexMember};
use crate::listing::{
    accepting_proposals_terms, buy_now_only_terms, check_accepting_proposals, check_buy_now_only,
    ListingTerms,
};
use crate::offering::{
    FixedPriceOffering, FixedPriceOfferingStatus, FpoView, OfferingId, OfferingIdView,
    ProposalSettlement,
};

verus! {

broadcast use vstd::std_specs::hash::group_hash_axioms;

/// The state of the marketplace that offerings live in.
pub struct MarketplaceContract {
    /// The NFT contract on which new collections are created.
    pub nft_contract_id: String,
    /// The collection id that the next offering gets.
    pub next_collection_id: u64,
    /// Every offering, under its own id.
    pub fpos_by_id: Vec<FixedPriceOffering>,
    /// The ids of the offerings of each offeror.
    pub fpos_by_offeror_id: AccountIndex<OfferingId>,
}

/// The mathematical value of a [`MarketplaceContract`].
pub struct MarketplaceView {
    pub nft_contract_id: Seq<char>,
    pub next_collection_id: u64,
    pub fpos: Map<OfferingIdView, FpoView>,
    pub fpos_by_offeror: Map<Seq<char>, Set<OfferingIdView>>,
}

/// The cross-contract call that creates the NFT collection of a new
/// offering, and the offering to complete when it returns.
pub struct MakeCollection {
    pub nft_contract_id: String,
    pub collection_id: u64,
    pub supply_total: u64,
    /// Deposit attached to the call, for the collection's storage.
    pub storage_deposit_yocto: u128,
    pub offering_id: OfferingId,
}

/// The mathematical value of a [`MakeCollection`].
pub struct MakeCollectionView {
    pub nft_contract_id: Seq<char>,
    pub collection_id: u64,
    pub supply_total: u64,
    pub storage_deposit_yocto: u128,
    pub offering_id: OfferingIdView,
}

impl View for MakeCollection {
    type V = MakeCollectionView;

    open spec fn view(&self) -> MakeCollectionView {
        MakeCollectionView {
            nft_contract_id: self.nft_contract_id@,
            collection_id: self.collection_id,
            supply_total: self.supply_total,
            storage_deposit_yocto: self.storage_deposit_yocto,
            offering_id: self.offering_id@,
        }
    }
}

/// The offering ids of each offeror, as the offerings determine them: an
/// account is present exactly when it has some offering.
pub open spec fn offeror_index_of(fpos: Map<OfferingIdView, FpoView>) -> Map<Seq<char>, Set<OfferingIdView>> {
    Map::new(
        |a: Seq<char>| exists|k: OfferingIdView| #[trigger] fpos.contains_key(k) && fpos[k].offeror_id == a,
        |a: Seq<char>| Set::new(|k: OfferingIdView| fpos.contains_key(k) && fpos[k].offeror_id == a),
    )
}

/// A new offering, as listed on the given terms.
pub open spec fn offering_from_terms(
    terms: ListingTerms,
    offering_id: OfferingIdView,
    offeror_id: Seq<char>,
) -> FpoView {
    FpoView {
        offering_id,
        offeror_id,
        supply_total: terms.supply_total,
        buy_now_price_yocto: terms.buy_now_price_yocto,
        min_proposal_price_yocto: terms.min_proposal_price_yocto,
        start_timestamp: terms.start_timestamp,
        end_timestamp: terms.end_timestamp,
        status: FixedPriceOfferingStatus::Unstarted,
        supply_left: terms.supply_total,
        proposals: Map::empty(),
        proposals_by_proposer: Map::empty(),
        acceptable_proposals: Seq::empty(),
        next_proposal_id: 0,
    }
}

/// The reading of an optional date.
pub open spec fn optional_date(text: Option<String>) -> Option<ParsedDate> {
    match text {
        Some(t) => Some(parsed_date_of(rfc3339_timestamp_nanos(t@))),
        None => None,
    }
}

impl MarketplaceView {
    /// Every offering is consistent and filed under its own id, and the
    /// offeror index is the one the offerings determine.
    pub open spec fn consistent(self) -> bool {
        &&& forall|k: OfferingIdView| #[trigger]
            self.fpos.contains_key(k) ==> self.fpos[k].offering_id == k && self.fpos[k].consistent()
        &&& self.fpos_by_offeror == offeror_index_of(self.fpos)
    }

    /// The marketplace with `fpos` as its offerings (and the offeror index
    /// that they determine).
    pub open spec fn with_offerings(self, fpos: Map<OfferingIdView, FpoView>) -> MarketplaceView {
        MarketplaceView { fpos, fpos_by_offeror: offeror_index_of(fpos), ..self }
    }

    /// The id the next listed offering gets.
    pub open spec fn next_offering_id(self) -> OfferingIdView {
        OfferingIdView { nft_contract_id: self.nft_contract_id, collection_id: self.next_collection_id }
    }

    /// The marketplace once an offering is listed on the given terms: it is
    /// filed under the next collection id, which then moves on by one.
    pub open spec fn with_listing(self, terms: ListingTerms, offeror_id: Seq<char>) -> MarketplaceView {
        let fpos = self.fpos.insert(
            self.next_offering_id(),
            offering_from_terms(terms, self.next_offering_id(), offeror_id),
        );
        MarketplaceView {
            next_collection_id: (self.next_collection_id + 1) as u64,
            ..self.with_offerings(fpos)
        }
    }

    /// The call that creates the collection of an offering listed on the given terms.
    pub open spec fn make_collection_for(self, terms: ListingTerms) -> MakeCollectionView {
        MakeCollectionView {
            nft_contract_id: self.nft_contract_id,
            collection_id: self.next_collection_id,
            supply_total: terms.supply_total,
            storage_deposit_yocto: terms.storage_deposit_yocto,
            offering_id: self.next_offering_id(),
        }
    }

    /// Listing on the given terms either fails because no collection id is
    /// left (changing nothing) or files the offering and asks for its collection.
    pub open spec fn listing_outcome(
        self,
        terms: ListingTerms,
        offeror_id: Seq<char>,
        r: Result<MakeCollection, FpoError>,
        post: MarketplaceView,
    ) -> bool {
        if self.next_collection_id == u64::MAX {
            r == Err::<MakeCollection, FpoError>(FpoError::CollectionIdOverflow) && post == self
        } else {
            &&& r is Ok
            &&& r->Ok_0@ == self.make_collection_for(terms)
            &&& post == self.with_listing(terms, offeror_id)
        }
    }

    /// The outcome of listing: a refusal of the terms changes nothing;
    /// accepted terms are listed.
    pub open spec fn add_outcome(
        self,
        checked: Result<ListingTerms, FpoError>,
        offeror_id: Seq<char>,
        r: Result<MakeCollection, FpoError>,
        post: MarketplaceView,
    ) -> bool {
        match checked {
            Err(e) => r == Err::<MakeCollection, FpoError>(e) && post == self,
            Ok(terms) => self.listing_outcome(terms, offeror_id, r, post),
        }
    }

    /// Why accepting `count` proposals of the offering is refused, if it is:
    /// the offering is missing, the caller is not its offeror, too few
    /// proposals are acceptable, or too little supply is left.
    pub open spec fn accept_error(
        self,
        key: OfferingIdView,
        count: u64,
        caller: Seq<char>,
    ) -> Option<FpoError> {
        if !self.fpos.contains_key(key) {
            Some(FpoError::ListingNotFound)
        } else if caller != self.fpos[key].offeror_id {
            Some(FpoError::OnlyOfferorCanAccept)
        } else if self.fpos[key].acceptable_proposals.len() < count {
            Some(FpoError::NotEnoughProposals { available: self.fpos[key].acceptable_proposals.len() as u64 })
        } else if self.fpos[key].supply_left < count {
            Some(FpoError::SupplyUnderflow)
        } else {
            None
        }
    }

    /// Why concluding the offering at time `now` is refused, if it is: the
    /// offering is missing, it is running, or the caller is not its offeror.
    pub open spec fn conclude_error(self, key: OfferingIdView, now: i64, caller: Seq<char>) -> Option<FpoError> {
        if !self.fpos.contains_key(key) {
            Some(FpoError::ListingNotFound)
        } else if self.fpos[key].status_at(now) == FixedPriceOfferingStatus::Running {
            Some(FpoError::StillRunning)
        } else if caller != self.fpos[key].offeror_id {
            Some(FpoError::OnlyOfferorCanConclude)
        } else {
            None
        }
    }
}

/// Removing one offering takes its id out of its offeror's set, and the
/// offeror out of the index when nothing is left.
pub proof fn lemma_offeror_index_remove(fpos: Map<OfferingIdView, FpoView>, k: OfferingIdView)
    requires
        fpos.contains_key(k),
    ensures
        ({
            let a = fpos[k].offeror_id;
            let idx = offeror_index_of(fpos);
            let rest = idx[a].remove(k);
            &&& idx.contains_key(a)
            &&& idx[a].contains(k)
            &&& offeror_index_of(fpos.remove(k)) == if rest == Set::<OfferingIdView>::empty() {
                idx.remove(a)
            } else {
                idx.insert(a, rest)
            }
        }),
{
    let a = fpos[k].offeror_id;
    let idx = offeror_index_of(fpos);
    let smaller = fpos.remove(k);
    let rest = idx[a].remove(k);
    assert(idx.contains_key(a));
    assert(idx[a].contains(k));
    let target = if rest == Set::<OfferingIdView>::empty() {
        idx.remove(a)
    } else {
        idx.insert(a, rest)
    };
    let result = offeror_index_of(smaller);
    assert forall|b: Seq<char>| #[trigger] result.contains_key(b) == target.contains_key(b) by {
        if result.contains_key(b) {
            let x = choose|x: OfferingIdView| #[trigger] smaller.contains_key(x) && smaller[x].offeror_id == b;
            assert(fpos.contains_key(x));
            if b == a {
                assert(rest.contains(x));
            }
        }
        if target.contains_key(b) {
            if b == a {
                assert(!(rest =~= Set::<OfferingIdView>::empty()));
                let x = choose|x: OfferingIdView| !(rest.contains(x) == Set::<OfferingIdView>::empty().contains(x));
                assert(smaller.contains_key(x));
            } else {
                let x = choose|x: OfferingIdView| #[trigger] fpos.contains_key(x) && fpos[x].offeror_id == b;
                assert(smaller.contains_key(x));
            }
        }
    }
    assert forall|b: Seq<char>| result.contains_key(b) implies result[b] == target[b] by {
        if b == a {
            assert(result[b] =~= rest);
        } else {
            assert(result[b] =~= idx[b]);
        }
    }
    assert(result =~= target);
}

/// Adding an offering under a new id files the id under its offeror.
pub proof fn lemma_offeror_index_insert(fpos: Map<OfferingIdView, FpoView>, k: OfferingIdView, v: FpoView)
    requires
        !fpos.contains_key(k),
    ensures
        ({
            let a = v.offeror_id;
            let idx = offeror_index_of(fpos);
            offeror_index_of(fpos.insert(k, v)) == idx.insert(
                a,
                if idx.contains_key(a) {
                    idx[a].insert(k)
                } else {
                    Set::<OfferingIdView>::empty().insert(k)
                },
            )
        }),
{
    let a = v.offeror_id;
    let idx = offeror_index_of(fpos);
    let bigger = fpos.insert(k, v);
    let target = idx.insert(
        a,
        if idx.contains_key(a) {
            idx[a].insert(k)
        } else {
            Set::<OfferingIdView>::empty().insert(k)
        },
    );
    let result = offeror_index_of(bigger);
    assert forall|b: Seq<char>| #[trigger] result.contains_key(b) == target.contains_key(b) by {
        if result.contains_key(b) && b != a {
            let x = choose|x: OfferingIdView| #[trigger] bigger.contains_key(x) && bigger[x].offeror_id == b;
            assert(fpos.contains_key(x));
        }
        if b == a {
            assert(bigger.contains_key(k));
        }
        if target.contains_key(b) && b != a {
            let x = choose|x: OfferingIdView| #[trigger] fpos.contains_key(x) && fpos[x].offeror_id == b;
            assert(bigger.contains_key(x));
        }
    }
    assert forall|b: Seq<char>| result.contains_key(b) implies result[b] == target[b] by {
        if b == a {
            if idx.contains_key(a) {
                assert(result[b] =~= idx[a].insert(k));
            } else {
                assert(result[b] =~= Set::<OfferingIdView>::empty().insert(k));
            }
        } else {
            assert(result[b] =~= idx[b]);
        }
    }
    assert(result =~= target);
}

/// Replacing an offering by one of the same offeror leaves the index as it is.
pub proof fn lemma_offeror_index_same_owner(fpos: Map<OfferingIdView, FpoView>, k: OfferingIdView, v: FpoView)
    requires
        fpos.contains_key(k),
        fpos[k].offeror_id == v.offeror_id,
    ensures
        offeror_index_of(fpos.insert(k, v)) == offeror_index_of(fpos),
{
    let bigger = fpos.insert(k, v);
    let result = offeror_index_of(bigger);
    let idx = offeror_index_of(fpos);
    assert forall|b: Seq<char>| #[trigger] result.contains_key(b) == idx.contains_key(b) by {
        if result.contains_key(b) {
            let x = choose|x: OfferingIdView| #[trigger] bigger.contains_key(x) && bigger[x].offeror_id == b;
            assert(fpos.contains_key(x));
        }
        if idx.contains_key(b) {
            let x = choose|x: OfferingIdView| #[trigger] fpos.contains_key(x) && fpos[x].offeror_id == b;
            assert(bigger.contains_key(x));
        }
    }
    assert forall|b: Seq<char>| result.contains_key(b) implies result[b] == idx[b] by {
        assert(result[b] =~= idx[b]);
    }
    assert(result =~= idx);
}

impl MarketplaceContract {
    /// Some offering is filed under the id.
    pub closed spec fn holds(self, k: OfferingIdView) -> bool {
        exists|i: int| 0 <= i < self.fpos_by_id.len() && self.fpos_by_id[i].offering_id@ == k
    }

    /// The position of the offering with the id.
    pub closed spec fn slot(self, k: OfferingIdView) -> int {
        choose|i: int| 0 <= i < self.fpos_by_id.len() && self.fpos_by_id[i].offering_id@ == k
    }

    /// The offerings by id.
    pub closed spec fn offerings(self) -> Map<OfferingIdView, FpoView> {
        Map::new(|k: OfferingIdView| self.holds(k), |k: OfferingIdView| self.fpos_by_id[self.slot(k)]@)
    }

    /// No two offerings share an id, and each is well formed.
    pub closed spec fn offerings_well_formed(self) -> bool {
        &&& forall|i: int, j: int|
            0 <= i < j < self.fpos_by_id.len() ==> self.fpos_by_id[i].offering_id@
                != self.fpos_by_id[j].offering_id@
        &&& forall|i: int| 0 <= i < self.fpos_by_id.len() ==> #[trigger] self.fpos_by_id[i].well_formed()
    }

    /// The marketplace is consistent: offerings, their proposals and both indexes agree.
    pub open spec fn well_formed(&self) -> bool {
        &&& self.offerings_well_formed()
        &&& self.fpos_by_offeror_id.well_formed()
        &&& self@.consistent()
    }

    proof fn lemma_slot(self, i: int)
        requires
            self.offerings_well_formed(),
            0 <= i < self.fpos_by_id.len(),
        ensures
            self.holds(self.fpos_by_id[i].offering_id@),
            self.slot(self.fpos_by_id[i].offering_id@) == i,
            self.offerings().contains_key(self.fpos_by_id[i].offering_id@),
            self.offerings()[self.fpos_by_id[i].offering_id@] == self.fpos_by_id[i]@,
    {
        let k = self.fpos_by_id[i].offering_id@;
        let s = self.slot(k);
        if s != i {
            if s < i {
                assert(self.fpos_by_id[s].offering_id@ != self.fpos_by_id[i].offering_id@);
            } else {
                assert(self.fpos_by_id[i].offering_id@ != self.fpos_by_id[s].offering_id@);
            }
        }
    }

    /// The offerings as a map are consistent when every offering is well formed.
    proof fn lemma_offerings_consistent(self)
        requires
            self.offerings_well_formed(),
        ensures
            forall|k: OfferingIdView| #[trigger]
                self.offerings().contains_key(k) ==> self.offerings()[k].offering_id == k
                    && self.offerings()[k].consistent(),
    {
        assert forall|k: OfferingIdView| #[trigger] self.offerings().contains_key(k) implies self.offerings()[k].offering_id == k
            && self.offerings()[k].consistent() by {
            let i = choose|i: int| 0 <= i < self.fpos_by_id.len() && self.fpos_by_id[i].offering_id@ == k;
            self.lemma_slot(i);
            assert(self.fpos_by_id[i].well_formed());
        }
    }

    /// Putting an offering with the same id at a position replaces it in the map.
    proof fn lemma_update(pre: Self, post: Self, i: int)
        requires
            pre.offerings_well_formed(),
            0 <= i < pre.fpos_by_id.len(),
            post.fpos_by_id@ == pre.fpos_by_id@.update(i, post.fpos_by_id[i]),
            post.fpos_by_id[i].offering_id@ == pre.fpos_by_id[i].offering_id@,
            post.fpos_by_id[i].well_formed(),
        ensures
            post.offerings_well_formed(),
            post.offerings() == pre.offerings().insert(pre.fpos_by_id[i].offering_id@, post.fpos_by_id[i]@),
    {
        let key = pre.fpos_by_id[i].offering_id@;
        assert forall|x: int, y: int| 0 <= x < y < post.fpos_by_id.len() implies post.fpos_by_id[x].offering_id@
            != post.fpos_by_id[y].offering_id@ by {
            assert(post.fpos_by_id[x].offering_id@ == pre.fpos_by_id[x].offering_id@);
            assert(post.fpos_by_id[y].offering_id@ == pre.fpos_by_id[y].offering_id@);
        }
        assert forall|x: int| 0 <= x < post.fpos_by_id.len() implies #[trigger] post.fpos_by_id[x].well_formed() by {
            if x != i {
                assert(post.fpos_by_id[x] == pre.fpos_by_id[x]);
            }
        }
        let target = pre.offerings().insert(key, post.fpos_by_id[i]@);
        assert forall|k: OfferingIdView| #[trigger] post.holds(k) == pre.holds(k) by {
            if post.holds(k) {
                let x = choose|x: int| 0 <= x < post.fpos_by_id.len() && post.fpos_by_id[x].offering_id@ == k;
                assert(pre.fpos_by_id[x].offering_id@ == k);
            }
            if pre.holds(k) {
                let x = choose|x: int| 0 <= x < pre.fpos_by_id.len() && pre.fpos_by_id[x].offering_id@ == k;
                assert(post.fpos_by_id[x].offering_id@ == k);
            }
        }
        pre.lemma_slot(i);
        assert forall|k: OfferingIdView| post.offerings().contains_key(k) implies post.offerings()[k] == target[k] by {
            let x = choose|x: int| 0 <= x < post.fpos_by_id.len() && post.fpos_by_id[x].offering_id@ == k;
            post.lemma_slot(x);
            if x != i {
                assert(post.fpos_by_id[x] == pre.fpos_by_id[x]);
                pre.lemma_slot(x);
            }
        }
        assert(post.offerings() =~= target);
    }

    /// Taking out the offering at a position takes its id out of the map.
    proof fn lemma_remove(pre: Self, post: Self, i: int)
        requires
            pre.offerings_well_formed(),
            0 <= i < pre.fpos_by_id.len(),
            post.fpos_by_id@ == pre.fpos_by_id@.remove(i),
        ensures
            post.offerings_well_formed(),
            post.offerings() == pre.offerings().remove(pre.fpos_by_id[i].offering_id@),
    {
        let key = pre.fpos_by_id[i].offering_id@;
        assert forall|x: int, y: int| 0 <= x < y < post.fpos_by_id.len() implies post.fpos_by_id[x].offering_id@
            != post.fpos_by_id[y].offering_id@ by {
            let x0 = if x < i { x } else { x + 1 };
            let y0 = if y < i { y } else { y + 1 };
            assert(post.fpos_by_id[x] == pre.fpos_by_id[x0]);
            assert(post.fpos_by_id[y] == pre.fpos_by_id[y0]);
        }
        assert forall|x: int| 0 <= x < post.fpos_by_id.len() implies #[trigger] post.fpos_by_id[x].well_formed() by {
            let x0 = if x < i { x } else { x + 1 };
            assert(post.fpos_by_id[x] == pre.fpos_by_id[x0]);
        }
        let target = pre.offerings().remove(key);
        pre.lemma_slot(i);
        assert forall|k: OfferingIdView| #[trigger] post.holds(k) == (pre.holds(k) && k != key) by {
            if post.holds(k) {
                let x = choose|x: int| 0 <= x < post.fpos_by_id.len() && post.fpos_by_id[x].offering_id@ == k;
                let x0 = if x < i { x } else { x + 1 };
                assert(post.fpos_by_id[x] == pre.fpos_by_id[x0]);
                pre.lemma_slot(x0);
            }
            if pre.holds(k) && k != key {
                let x = choose|x: int| 0 <= x < pre.fpos_by_id.len() && pre.fpos_by_id[x].offering_id@ == k;
                let x1 = if x < i { x } else { x - 1 };
                assert(post.fpos_by_id[x1] == pre.fpos_by_id[x]);
            }
        }
        assert forall|k: OfferingIdView| post.offerings().contains_key(k) implies post.offerings()[k] == target[k] by {
            let x = choose|x: int| 0 <= x < post.fpos_by_id.len() && post.fpos_by_id[x].offering_id@ == k;
            post.lemma_slot(x);
            let x0 = if x < i { x } else { x + 1 };
            assert(post.fpos_by_id[x] == pre.fpos_by_id[x0]);
            pre.lemma_slot(x0);
        }
        assert(post.offerings() =~= target);
    }

    /// Appending an offering under a new id adds it to the map.
    proof fn lemma_push(pre: Self, post: Self, f: FixedPriceOffering)
        requires
            pre.offerings_well_formed(),
            !pre.offerings().contains_key(f.offering_id@),
            f.well_formed(),
            post.fpos_by_id@ == pre.fpos_by_id@.push(f),
        ensures
            post.offerings_well_formed(),
            post.offerings() == pre.offerings().insert(f.offering_id@, f@),
    {
        let n = pre.fpos_by_id.len() as int;
        let key = f.offering_id@;
        assert forall|x: int, y: int| 0 <= x < y < post.fpos_by_id.len() implies post.fpos_by_id[x].offering_id@
            != post.fpos_by_id[y].offering_id@ by {
            assert(post.fpos_by_id[x] == pre.fpos_by_id[x]);
            if y == n {
                assert(pre.holds(pre.fpos_by_id[x].offering_id@));
            } else {
                assert(post.fpos_by_id[y] == pre.fpos_by_id[y]);
            }
        }
        assert forall|x: int| 0 <= x < post.fpos_by_id.len() implies #[trigger] post.fpos_by_id[x].well_formed() by {
            if x < n {
                assert(post.fpos_by_id[x] == pre.fpos_by_id[x]);
            }
        }
        let target = pre.offerings().insert(key, f@);
        assert forall|k: OfferingIdView| #[trigger] post.holds(k) == (pre.holds(k) || k == key) by {
            if post.holds(k) {
                let x = choose|x: int| 0 <= x < post.fpos_by_id.len() && post.fpos_by_id[x].offering_id@ == k;
                if x < n {
                    assert(post.fpos_by_id[x] == pre.fpos_by_id[x]);
                }
            }
            if pre.holds(k) {
                let x = choose|x: int| 0 <= x < pre.fpos_by_id.len() && pre.fpos_by_id[x].offering_id@ == k;
                assert(post.fpos_by_id[x] == pre.fpos_by_id[x]);
            }
            if k == key {
                assert(post.fpos_by_id[n] == f);
            }
        }
        assert forall|k: OfferingIdView| post.offerings().contains_key(k) implies post.offerings()[k] == target[k] by {
            let x = choose|x: int| 0 <= x < post.fpos_by_id.len() && post.fpos_by_id[x].offering_id@ == k;
            post.lemma_slot(x);
            if x < n {
                assert(post.fpos_by_id[x] == pre.fpos_by_id[x]);
                pre.lemma_slot(x);
            }
        }
        assert(post.offerings() =~= target);
    }
}

impl View for MarketplaceContract {
    type V = MarketplaceView;

    open spec fn view(&self) -> MarketplaceView {
        MarketplaceView {
            nft_contract_id: self.nft_contract_id@,
            next_collection_id: self.next_collection_id,
            fpos: self.offerings(),
            fpos_by_offeror: self.fpos_by_offeror_id@,
        }
    }
}

impl MarketplaceContract {
    /// A marketplace without offerings that creates collections on the given NFT contract.
    pub fn new(nft_contract_id: String) -> (r: Self)
        ensures
            r.well_formed(),
            r@ == (MarketplaceView {
                nft_contract_id: nft_contract_id@,
                next_collection_id: 0,
                fpos: Map::empty(),
                fpos_by_offeror: Map::empty(),
            }),
    {
        let r = MarketplaceContract {
            nft_contract_id,
            next_collection_id: 0,
            fpos_by_id: Vec::new(),
            fpos_by_offeror_id: AccountIndex::new(),
        };
        proof {
            assert(r.offerings() =~= Map::<OfferingIdView, FpoView>::empty());
            assert(offeror_index_of(Map::<OfferingIdView, FpoView>::empty()) =~= Map::<
                Seq<char>,
                Set<OfferingIdView>,
            >::empty());
        }
        r
    }

    fn find_offering(&self, id: &OfferingId) -> (r: Option<usize>)
        requires
            self.offerings_well_formed(),
        ensures
            match r {
                Some(i) => i < self.fpos_by_id.len() && self.fpos_by_id[i as int].offering_id@ == id@
                    && self@.fpos.contains_key(id@) && self@.fpos[id@] == self.fpos_by_id[i as int]@,
                None => !self@.fpos.contains_key(id@),
            },
    {
        let mut i: usize = 0;
        while i < self.fpos_by_id.len()
            invariant
                i <= self.fpos_by_id.len(),
                self.offerings_well_formed(),
                forall|k: int| 0 <= k < i ==> self.fpos_by_id[k].offering_id@ != id@,
            decreases self.fpos_by_id.len() - i,
        {
            if self.fpos_by_id[i].offering_id.same_as(id) {
                proof {
                    self.lemma_slot(i as int);
                }
                return Some(i);
            }
            i = i + 1;
        }
        None
    }

    /// The offering with the given id, if any.
    pub fn get_fpo(&self, id: &OfferingId) -> (r: Option<&FixedPriceOffering>)
        requires
            self.well_formed(),
        ensures
            r is Some <==> self@.fpos.contains_key(id@),
            r matches Some(f) ==> f@ == self@.fpos[id@] && f.well_formed(),
    {
        match self.find_offering(id) {
            Some(i) => Some(&self.fpos_by_id[i]),
            None => None,
        }
    }

    fn remove_at(&mut self, i: usize) -> (removed: FixedPriceOffering)
        requires
            old(self).well_formed(),
            i < old(self).fpos_by_id.len(),
        ensures
            final(self).well_formed(),
            removed == old(self).fpos_by_id[i as int],
            removed.well_formed(),
            final(self)@ == old(self)@.with_offerings(old(self)@.fpos.remove(removed.offering_id@)),
    {
        let ghost pre = *self;
        proof {
            pre.lemma_slot(i as int);
            lemma_offeror_index_remove(pre@.fpos, pre.fpos_by_id[i as int].offering_id@);
        }
        let removed = self.fpos_by_id.remove(i);
        let _ = self.fpos_by_offeror_id.remove_member(&removed.offeror_id, &removed.offering_id);
        proof {
            Self::lemma_remove(pre, *self, i as int);
            self.lemma_offerings_consistent();
        }
        removed
    }

    /// Files an offering under its id, replacing any offering filed there.
    pub fn internal_add_fpo(&mut self, fpo: FixedPriceOffering)
        requires
            old(self).well_formed(),
            fpo.well_formed(),
        ensures
            final(self).well_formed(),
            final(self)@ == old(self)@.with_offerings(old(self)@.fpos.insert(fpo.offering_id@, fpo@)),
    {
        let ghost pre = self@;
        match self.find_offering(&fpo.offering_id) {
            Some(i) => {
                let _ = self.remove_at(i);
            },
            None => {},
        }
        let ghost mid = *self;
        let key = fpo.offering_id.duplicate();
        let offeror = fpo.offeror_id.clone();
        proof {
            lemma_offeror_index_insert(mid@.fpos, fpo.offering_id@, fpo@);
        }
        self.fpos_by_id.push(fpo);
        self.fpos_by_offeror_id.insert_member(offeror, key);
        proof {
            Self::lemma_push(mid, *self, fpo);
            self.lemma_offerings_consistent();
            assert(mid@.fpos.insert(fpo.offering_id@, fpo@) =~= pre.fpos.insert(fpo.offering_id@, fpo@));
        }
    }

    /// Takes the offering with the given id out of the marketplace, if there is one.
    pub fn internal_remove_fpo(&mut self, id: &OfferingId) -> (r: Option<FixedPriceOffering>)
        requires
            old(self).well_formed(),
        ensures
            final(self).well_formed(),
            r is Some <==> old(self)@.fpos.contains_key(id@),
            r matches Some(f) ==> f@ == old(self)@.fpos[id@] && f.well_formed(),
            final(self)@ == old(self)@.with_offerings(old(self)@.fpos.remove(id@)),
    {
        match self.find_offering(id) {
            Some(i) => Some(self.remove_at(i)),
            None => {
                proof {
                    assert(self@.fpos.remove(id@) =~= self@.fpos);
                }
                None
            },
        }
    }

    /// Lists an offering on terms that passed their checks: it is filed
    /// under the next collection id of the marketplace's NFT contract, with
    /// its full supply left and no proposals, and the call that creates its
    /// collection is returned.
    pub fn register_offering(&mut self, terms: ListingTerms, offeror_id: String) -> (r: Result<
        MakeCollection,
        FpoError,
    >)
        requires
            old(self).well_formed(),
        ensures
            final(self).well_formed(),
            old(self)@.listing_outcome(terms, offeror_id@, r, final(self)@),
    {
        if self.next_collection_id == u64::MAX {
            return Err(FpoError::CollectionIdOverflow);
        }
        let collection_id = self.next_collection_id;
        let offering_id = OfferingId { nft_contract_id: self.nft_contract_id.clone(), collection_id };
        let fpo = FixedPriceOffering {
            offering_id: offering_id.duplicate(),
            offeror_id,
            supply_total: terms.supply_total,
            buy_now_price_yocto: terms.buy_now_price_yocto,
            min_proposal_price_yocto: terms.min_proposal_price_yocto,
            start_timestamp: terms.start_timestamp,
            end_timestamp: terms.end_timestamp,
            status: FixedPriceOfferingStatus::Unstarted,
            supply_left: terms.supply_total,
            proposals: HashMap::new(),
            proposals_by_proposer: AccountIndex::new(),
            acceptable_proposals: Vec::new(),
            next_proposal_id: 0,
        };
        proof {
            assert(fpo@.proposals =~= Map::<u64, crate::offering::ProposalView>::empty());
            assert(crate::offering::proposer_index_of(fpo@.proposals) =~= Map::<Seq<char>, Set<u64>>::empty());
            assert(fpo@.acceptable_proposals =~= Seq::<u64>::empty());
            assert(fpo@ == offering_from_terms(terms, self@.next_offering_id(), offeror_id@));
            assert(fpo@.consistent());
            assert(fpo.well_formed());
        }
        let ghost pre = self@;
        self.internal_add_fpo(fpo);
        self.next_collection_id = collection_id + 1;
        proof {
            let post = pre.with_listing(terms, offeror_id@);
            assert(self@.fpos == post.fpos);
            assert(self@.fpos_by_offeror == post.fpos_by_offeror);
            assert(self@.nft_contract_id == post.nft_contract_id);
            assert(self@.next_collection_id == post.next_collection_id);
            assert(self@ == pre.with_listing(terms, offeror_id@));
            assert(self.well_formed());
        }
        Ok(
            MakeCollection {
                nft_contract_id: self.nft_contract_id.clone(),
                collection_id,
                supply_total: terms.supply_total,
                storage_deposit_yocto: terms.storage_deposit_yocto,
                offering_id,
            },
        )
    }

    /// Lists an offering that sells at its buy-now price only.
    ///
    /// The dates are RFC 3339 text; without a start date the offering starts
    /// at once, without an end date it runs until its supply is sold.
    pub fn fpo_add_buy_now_only(
        &mut self,
        supply_total: u64,
        buy_now_price_yocto: u128,
        start_date: Option<String>,
        end_date: Option<String>,
        ctx: &CallContext,
    ) -> (r: Result<MakeCollection, FpoError>)
        requires
            old(self).well_formed(),
        ensures
            final(self).well_formed(),
            old(self)@.add_outcome(
                buy_now_only_terms(
                    supply_total,
                    buy_now_price_yocto,
                    optional_date(start_date),
                    optional_date(end_date),
                    *ctx,
                ),
                ctx.signer_account_id@,
                r,
                final(self)@,
            ),
    {
        let start = read_optional_date(&start_date);
        let end = read_optional_date(&end_date);
        match check_buy_now_only(supply_total, buy_now_price_yocto, start, end, ctx) {
            Err(e) => Err(e),
            Ok(terms) => self.register_offering(terms, ctx.signer_account_id.clone()),
        }
    }

    /// Lists an offering that sells at its buy-now price and also accepts
    /// proposals from its minimum proposal price on, until its end date.
    ///
    /// The dates are RFC 3339 text; without a start date the offering starts
    /// at once.
    pub fn fpo_add_accepting_proposals(
        &mut self,
        supply_total: u64,
        buy_now_price_yocto: u128,
        min_proposal_price_yocto: u128,
        start_date: Option<String>,
        end_date: String,
        ctx: &CallContext,
    ) -> (r: Result<MakeCollection, FpoError>)
        requires
            old(self).well_formed(),
        ensures
            final(self).well_formed(),
            old(self)@.add_outcome(
                accepting_proposals_terms(
                    supply_total,
                    buy_now_price_yocto,
                    min_proposal_price_yocto,
                    optional_date(start_date),
                    parsed_date_of(rfc3339_timestamp_nanos(end_date@)),
                    *ctx,
                ),
                ctx.signer_account_id@,
                r,
                final(self)@,
            ),
    {
        let start = read_optional_date(&start_date);
        let end = read_rfc3339(end_date.as_str());
        match check_accepting_proposals(
            supply_total,
            buy_now_price_yocto,
            min_proposal_price_yocto,
            start,
            end,
            ctx,
        ) {
            Err(e) => Err(e),
            Ok(terms) => self.register_offering(terms, ctx.signer_account_id.clone()),
        }
    }

    /// The offeror accepts the `accepted_proposals_count` best acceptable
    /// proposals of an offering: each is returned, best last, as a sale of one
    /// NFT to its proposer at its price, and leaves the offering; the supply
    /// left shrinks by the count.
    pub fn fpo_accept_proposals(
        &mut self,
        nft_contract_id: String,
        collection_id: u64,
        accepted_proposals_count: u64,
        ctx: &CallContext,
    ) -> (r: Result<Vec<ProposalSettlement>, FpoError>)
        requires
            old(self).well_formed(),
        ensures
            final(self).well_formed(),
            ({
                let key = OfferingIdView { nft_contract_id: nft_contract_id@, collection_id };
                let pre = old(self)@;
                match pre.accept_error(key, accepted_proposals_count, ctx.predecessor_account_id@) {
                    Some(e) => r == Err::<Vec<ProposalSettlement>, FpoError>(e) && final(self)@ == pre,
                    None => {
                        &&& r is Ok
                        &&& r->Ok_0@.map_values(|s: ProposalSettlement| s@) == pre.fpos[key].best_proposals(
                            accepted_proposals_count as nat,
                        ).map_values(|id: u64| pre.fpos[key].settlement_of(id))
                        &&& final(self)@ == pre.with_offerings(
                            pre.fpos.insert(key, pre.fpos[key].after_accepting(accepted_proposals_count as nat)),
                        )
                    },
                }
            }),
    {
        let ghost pre = *self;
        let offering_id = OfferingId { nft_contract_id, collection_id };
        let i = match self.find_offering(&offering_id) {
            None => return Err(FpoError::ListingNotFound),
            Some(i) => i,
        };
        if !(ctx.predecessor_account_id == self.fpos_by_id[i].offeror_id) {
            return Err(FpoError::OnlyOfferorCanAccept);
        }
        let available = self.fpos_by_id[i].acceptable_proposals.len() as u64;
        if available < accepted_proposals_count {
            return Err(FpoError::NotEnoughProposals { available });
        }
        if self.fpos_by_id[i].supply_left < accepted_proposals_count {
            return Err(FpoError::SupplyUnderflow);
        }
        proof {
            assert(pre.fpos_by_id[i as int].well_formed());
        }
        let mut fpo = self.fpos_by_id.remove(i);
        let accepted = fpo.accept_best_proposals(accepted_proposals_count);
        self.fpos_by_id.insert(i, fpo);
        proof {
            assert(self.fpos_by_id@ =~= pre.fpos_by_id@.update(i as int, fpo));
            Self::lemma_update(pre, *self, i as int);
            lemma_offeror_index_same_owner(pre@.fpos, offering_id@, fpo@);
            self.lemma_offerings_consistent();
        }
        Ok(accepted)
    }

    /// The offeror concludes an offering that is not running: it leaves the
    /// marketplace, and every proposal still acceptable is returned, in list
    /// order, as a refund of its price to its proposer.
    pub fn fpo_conclude(
        &mut self,
        nft_contract_id: String,
        collection_id: u64,
        ctx: &CallContext,
    ) -> (r: Result<Vec<ProposalSettlement>, FpoError>)
        requires
            old(self).well_formed(),
        ensures
            final(self).well_formed(),
            ({
                let key = OfferingIdView { nft_contract_id: nft_contract_id@, collection_id };
                let pre = old(self)@;
                match pre.conclude_error(key, ctx.now(), ctx.predecessor_account_id@) {
                    Some(e) => r == Err::<Vec<ProposalSettlement>, FpoError>(e) && final(self)@ == pre,
                    None => {
                        &&& r is Ok
                        &&& r->Ok_0@.map_values(|s: ProposalSettlement| s@)
                            == pre.fpos[key].acceptable_proposals.map_values(
                            |id: u64| pre.fpos[key].settlement_of(id),
                        )
                        &&& final(self)@ == pre.with_offerings(pre.fpos.remove(key))
                    },
                }
            }),
    {
        let offering_id = OfferingId { nft_contract_id, collection_id };
        let i = match self.find_offering(&offering_id) {
            None => return Err(FpoError::ListingNotFound),
            Some(i) => i,
        };
        let status = self.fpos_by_id[i].current_status(ctx.now_nanos());
        if status == FixedPriceOfferingStatus::Running {
            return Err(FpoError::StillRunning);
        }
        if !(ctx.predecessor_account_id == self.fpos_by_id[i].offeror_id) {
            return Err(FpoError::OnlyOfferorCanConclude);
        }
        let removed = self.remove_at(i);
        Ok(removed.acceptable_settlements())
    }
}

} // verus!
