//! A fixed-price offering of an NFT collection, the proposals placed on it,
//! and what accepting the best of them does to it.

use std::collections::HashMap;
use vstd::prelude::*;

use crate::index::{AccountIndex, IndexMember};

verus! {

broadcast use vstd::std_specs::hash::group_hash_axioms;

/// Identifies an offering: the NFT contract and the collection on it.
pub struct OfferingId {
    pub nft_contract_id: String,
    pub collection_id: u64,
}

/// The mathematical value of an [`OfferingId`].
pub struct OfferingIdView {
    pub nft_contract_id: Seq<char>,
    pub collection_id: u64,
}

impl View for OfferingId {
    type V = OfferingIdView;

    open spec fn view(&self) -> OfferingIdView {
        OfferingIdView { nft_contract_id: self.nft_contract_id@, collection_id: self.collection_id }
    }
}

impl IndexMember for OfferingId {
    fn same_as(&self, other: &OfferingId) -> (b: bool) {
        self.collection_id == other.collection_id && self.nft_contract_id == other.nft_contract_id
    }

    fn duplicate(&self) -> (r: OfferingId) {
        OfferingId {
            nft_contract_id: self.nft_contract_id.clone(),
            collection_id: self.collection_id,
        }
    }
}

/// A proposal to buy one NFT of an offering at a price.
pub struct Proposal {
    pub id: u64,
    pub proposer_id: String,
    pub price_yocto: u128,
    pub is_acceptable: bool,
}

/// The mathematical value of a [`Proposal`].
pub struct ProposalView {
    pub id: u64,
    pub proposer_id: Seq<char>,
    pub price_yocto: u128,
    pub is_acceptable: bool,
}

impl View for Proposal {
    type V = ProposalView;

    open spec fn view(&self) -> ProposalView {
        ProposalView {
            id: self.id,
            proposer_id: self.proposer_id@,
            price_yocto: self.price_yocto,
            is_acceptable: self.is_acceptable,
        }
    }
}

/// Where an offering stands in its life.
#[derive(Debug, PartialEq, Eq, Structural, Clone, Copy)]
pub enum FixedPriceOfferingStatus {
    Unstarted,
    Running,
    Ended,
}

/// A proposal being settled: accepted (the proposer buys one NFT at the
/// proposal's price) or refunded (the proposer gets the price back).
pub struct ProposalSettlement {
    pub proposal_id: u64,
    pub proposer_id: String,
    pub price_yocto: u128,
}

/// The mathematical value of a [`ProposalSettlement`].
pub struct SettlementView {
    pub proposal_id: u64,
    pub proposer_id: Seq<char>,
    pub price_yocto: u128,
}

impl View for ProposalSettlement {
    type V = SettlementView;

    open spec fn view(&self) -> SettlementView {
        SettlementView {
            proposal_id: self.proposal_id,
            proposer_id: self.proposer_id@,
            price_yocto: self.price_yocto,
        }
    }
}

/// A fixed-price offering.
pub struct FixedPriceOffering {
    pub offering_id: OfferingId,
    pub offeror_id: String,
    pub supply_total: u64,
    pub buy_now_price_yocto: u128,
    pub min_proposal_price_yocto: Option<u128>,
    pub start_timestamp: Option<i64>,
    pub end_timestamp: Option<i64>,
    pub status: FixedPriceOfferingStatus,
    pub supply_left: u64,
    /// Every proposal placed and not yet settled, by id.
    pub proposals: HashMap<u64, Proposal>,
    /// The ids of the proposals of each proposer.
    pub proposals_by_proposer: AccountIndex<u64>,
    /// The ids of the proposals that would be accepted, worst first, best last.
    pub acceptable_proposals: Vec<u64>,
    pub next_proposal_id: u64,
}

/// The mathematical value of a [`FixedPriceOffering`].
pub struct FpoView {
    pub offering_id: OfferingIdView,
    pub offeror_id: Seq<char>,
    pub supply_total: u64,
    pub buy_now_price_yocto: u128,
    pub min_proposal_price_yocto: Option<u128>,
    pub start_timestamp: Option<i64>,
    pub end_timestamp: Option<i64>,
    pub status: FixedPriceOfferingStatus,
    pub supply_left: u64,
    pub proposals: Map<u64, ProposalView>,
    pub proposals_by_proposer: Map<Seq<char>, Set<u64>>,
    pub acceptable_proposals: Seq<u64>,
    pub next_proposal_id: u64,
}

impl View for FixedPriceOffering {
    type V = FpoView;

    open spec fn view(&self) -> FpoView {
        FpoView {
            offering_id: self.offering_id@,
            offeror_id: self.offeror_id@,
            supply_total: self.supply_total,
            buy_now_price_yocto: self.buy_now_price_yocto,
            min_proposal_price_yocto: self.min_proposal_price_yocto,
            start_timestamp: self.start_timestamp,
            end_timestamp: self.end_timestamp,
            status: self.status,
            supply_left: self.supply_left,
            proposals: self.proposals@.map_values(|p: Proposal| p@),
            proposals_by_proposer: self.proposals_by_proposer@,
            acceptable_proposals: self.acceptable_proposals@,
            next_proposal_id: self.next_proposal_id,
        }
    }
}

/// The proposal ids of each proposer, as the proposals determine them: an
/// account is present exactly when it has some proposal.
pub open spec fn proposer_index_of(proposals: Map<u64, ProposalView>) -> Map<Seq<char>, Set<u64>> {
    Map::new(
        |a: Seq<char>| exists|id: u64| #[trigger] proposals.contains_key(id) && proposals[id].proposer_id == a,
        |a: Seq<char>| Set::new(|id: u64| proposals.contains_key(id) && proposals[id].proposer_id == a),
    )
}

/// Removing one proposal takes its id out of its proposer's set, and the
/// proposer out of the index when nothing is left.
pub proof fn lemma_proposer_index_remove(proposals: Map<u64, ProposalView>, id: u64)
    requires
        proposals.contains_key(id),
    ensures
        ({
            let a = proposals[id].proposer_id;
            let idx = proposer_index_of(proposals);
            let rest = idx[a].remove(id);
            &&& idx.contains_key(a)
            &&& idx[a].contains(id)
            &&& proposer_index_of(proposals.remove(id)) == if rest == Set::<u64>::empty() {
                idx.remove(a)
            } else {
                idx.insert(a, rest)
            }
        }),
{
    let a = proposals[id].proposer_id;
    let idx = proposer_index_of(proposals);
    let smaller = proposals.remove(id);
    let rest = idx[a].remove(id);
    assert(idx.contains_key(a));
    assert(idx[a].contains(id));
    let target = if rest == Set::<u64>::empty() {
        idx.remove(a)
    } else {
        idx.insert(a, rest)
    };
    let result = proposer_index_of(smaller);
    assert forall|b: Seq<char>| #[trigger] result.contains_key(b) == target.contains_key(b) by {
        if result.contains_key(b) {
            let x = choose|x: u64| #[trigger] smaller.contains_key(x) && smaller[x].proposer_id == b;
            assert(proposals.contains_key(x));
            if b == a {
                assert(rest.contains(x));
            }
        }
        if target.contains_key(b) {
            if b == a {
                assert(rest != Set::<u64>::empty());
                assert(!(rest =~= Set::<u64>::empty()));
                let x = choose|x: u64| !(rest.contains(x) == Set::<u64>::empty().contains(x));
                assert(smaller.contains_key(x));
            } else {
                let x = choose|x: u64| #[trigger] proposals.contains_key(x) && proposals[x].proposer_id == b;
                assert(smaller.contains_key(x));
            }
        }
    }
    assert forall|b: Seq<char>| result.contains_key(b) implies result[b] == target[b] by {
        if b == a {
            assert(result[b] =~= rest);
        } else {
            assert(result[b] =~= idx[b]);
        }
    }
    assert(result =~= target);
}

impl FpoView {
    /// The consistency that every stored offering keeps: proposals are filed
    /// under their own ids, the proposer index is the one the proposals
    /// determine, the acceptable list names distinct, existing proposals, and
    /// no more is left than was offered.
    pub open spec fn consistent(self) -> bool {
        &&& forall|id: u64| #[trigger] self.proposals.contains_key(id) ==> self.proposals[id].id == id
        &&& self.proposals_by_proposer == proposer_index_of(self.proposals)
        &&& self.acceptable_proposals.no_duplicates()
        &&& forall|i: int|
            0 <= i < self.acceptable_proposals.len() ==> self.proposals.contains_key(
                #[trigger] self.acceptable_proposals[i],
            )
        &&& self.supply_left <= self.supply_total
    }

    /// The status at the given time (nanoseconds): ended once nothing is
    /// left, not started before the start date, ended from the end date on,
    /// running otherwise.
    pub open spec fn status_at(self, now: i64) -> FixedPriceOfferingStatus {
        if self.supply_left == 0 {
            FixedPriceOfferingStatus::Ended
        } else if self.start_timestamp is Some && now < self.start_timestamp->0 {
            FixedPriceOfferingStatus::Unstarted
        } else if self.end_timestamp is Some && now >= self.end_timestamp->0 {
            FixedPriceOfferingStatus::Ended
        } else {
            FixedPriceOfferingStatus::Running
        }
    }

    /// The ids of the `count` best acceptable proposals, in list order.
    pub open spec fn best_proposals(self, count: nat) -> Seq<u64> {
        self.acceptable_proposals.subrange(
            self.acceptable_proposals.len() - count,
            self.acceptable_proposals.len() as int,
        )
    }

    /// What settling a proposal of this offering pays or refunds, and to whom.
    pub open spec fn settlement_of(self, id: u64) -> SettlementView {
        SettlementView {
            proposal_id: id,
            proposer_id: self.proposals[id].proposer_id,
            price_yocto: self.proposals[id].price_yocto,
        }
    }

    /// The offering once its `count` best acceptable proposals are accepted:
    /// they leave the acceptable list, the proposals and the proposer index,
    /// and the supply left shrinks by `count`.
    pub open spec fn after_accepting(self, count: nat) -> FpoView {
        let n = self.acceptable_proposals.len();
        let remaining = self.proposals.remove_keys(self.best_proposals(count).to_set());
        FpoView {
            acceptable_proposals: self.acceptable_proposals.subrange(0, n - count),
            proposals: remaining,
            proposals_by_proposer: proposer_index_of(remaining),
            supply_left: (self.supply_left - count) as u64,
            ..self
        }
    }
}

impl FixedPriceOffering {
    /// The offering is consistent, its proposer index included.
    pub open spec fn well_formed(&self) -> bool {
        &&& self.proposals_by_proposer.well_formed()
        &&& self@.consistent()
    }

    /// The status of the offering at the given time.
    pub fn current_status(&self, now: i64) -> (r: FixedPriceOfferingStatus)
        ensures
            r == self@.status_at(now),
    {
        if self.supply_left == 0 {
            FixedPriceOfferingStatus::Ended
        } else if self.start_timestamp.is_some() && now < self.start_timestamp.unwrap() {
            FixedPriceOfferingStatus::Unstarted
        } else if self.end_timestamp.is_some() && now >= self.end_timestamp.unwrap() {
            FixedPriceOfferingStatus::Ended
        } else {
            FixedPriceOfferingStatus::Running
        }
    }

    /// The refunds owed to the proposers of the acceptable proposals, in list order.
    pub fn acceptable_settlements(&self) -> (r: Vec<ProposalSettlement>)
        requires
            self.well_formed(),
        ensures
            r@.map_values(|s: ProposalSettlement| s@) == self@.acceptable_proposals.map_values(
                |id: u64| self@.settlement_of(id),
            ),
    {
        let mut r: Vec<ProposalSettlement> = Vec::new();
        let n = self.acceptable_proposals.len();
        let mut j: usize = 0;
        while j < n
            invariant
                j <= n,
                n == self.acceptable_proposals.len(),
                self@.consistent(),
                r@.map_values(|s: ProposalSettlement| s@) == self@.acceptable_proposals.subrange(
                    0,
                    j as int,
                ).map_values(|id: u64| self@.settlement_of(id)),
            decreases n - j,
        {
            let id = self.acceptable_proposals[j];
            proof {
                assert(self@.proposals.contains_key(id));
            }
            match self.proposals.get(&id) {
                Some(p) => {
                    r.push(
                        ProposalSettlement {
                            proposal_id: id,
                            proposer_id: p.proposer_id.clone(),
                            price_yocto: p.price_yocto,
                        },
                    );
                },
                None => {},
            }
            proof {
                let done = self@.acceptable_proposals.subrange(0, j as int);
                let next = self@.acceptable_proposals.subrange(0, j + 1);
                assert(next =~= done.push(id));
                assert(next.map_values(|id: u64| self@.settlement_of(id)) =~= done.map_values(
                    |id: u64| self@.settlement_of(id),
                ).push(self@.settlement_of(id)));
                assert(r@.map_values(|s: ProposalSettlement| s@) =~= next.map_values(
                    |id: u64| self@.settlement_of(id),
                ));
            }
            j = j + 1;
        }
        proof {
            assert(self@.acceptable_proposals.subrange(0, n as int) =~= self@.acceptable_proposals);
        }
        r
    }
    /// Accepts the `count` best acceptable proposals: each leaves the offering
    /// and is returned, in list order, as a sale to its proposer at its price.
    pub fn accept_best_proposals(&mut self, count: u64) -> (accepted: Vec<ProposalSettlement>)
        requires
            old(self).well_formed(),
            count <= old(self).acceptable_proposals.len(),
            count <= old(self).supply_left,
        ensures
            final(self).well_formed(),
            final(self)@ == old(self)@.after_accepting(count as nat),
            accepted@.map_values(|s: ProposalSettlement| s@) == old(self)@.best_proposals(
                count as nat,
            ).map_values(|id: u64| old(self)@.settlement_of(id)),
    {
        let ghost pre = self@;
        let n = self.acceptable_proposals.len();
        let split = n - count as usize;
        let mut accepted: Vec<ProposalSettlement> = Vec::new();
        let mut j = split;
        proof {
            assert(pre.acceptable_proposals.subrange(split as int, j as int).to_set() =~= Set::<u64>::empty());
            assert(pre.proposals.remove_keys(Set::<u64>::empty()) =~= pre.proposals);
            assert(accepted@.map_values(|s: ProposalSettlement| s@) =~= pre.acceptable_proposals.subrange(
                split as int,
                j as int,
            ).map_values(|id: u64| pre.settlement_of(id)));
        }
        while j < n
            invariant
                split <= j <= n,
                n == pre.acceptable_proposals.len(),
                split == n - count,
                pre.consistent(),
                self.proposals_by_proposer.well_formed(),
                self@ == (FpoView {
                    proposals: self@.proposals,
                    proposals_by_proposer: self@.proposals_by_proposer,
                    ..pre
                }),
                self@.proposals == pre.proposals.remove_keys(
                    pre.acceptable_proposals.subrange(split as int, j as int).to_set(),
                ),
                self@.proposals_by_proposer == proposer_index_of(self@.proposals),
                accepted@.map_values(|s: ProposalSettlement| s@)
                    == pre.acceptable_proposals.subrange(split as int, j as int).map_values(
                    |id: u64| pre.settlement_of(id),
                ),
            decreases n - j,
        {
            let id = self.acceptable_proposals[j];
            let ghost before = self@.proposals;
            let ghost done = pre.acceptable_proposals.subrange(split as int, j as int);
            proof {
                assert(pre.proposals.contains_key(id));
                assert(!done.to_set().contains(id)) by {
                    if done.to_set().contains(id) {
                        let k = choose|k: int| 0 <= k < done.len() && done[k] == id;
                        assert(pre.acceptable_proposals[split + k] == pre.acceptable_proposals[j as int]);
                    }
                }
                assert(before.contains_key(id));
                assert(before[id] == pre.proposals[id]);
                lemma_proposer_index_remove(before, id);
            }
            let removed = self.proposals.remove(&id);
            match removed {
                Some(p) => {
                    proof {
                        assert(self@.proposals =~= before.remove(id));
                        assert(p@ == before[id]);
                    }
                    let _ = self.proposals_by_proposer.remove_member(&p.proposer_id, &id);
                    accepted.push(
                        ProposalSettlement {
                            proposal_id: id,
                            proposer_id: p.proposer_id,
                            price_yocto: p.price_yocto,
                        },
                    );
                },
                None => {},
            }
            proof {
                let next = pre.acceptable_proposals.subrange(split as int, j + 1);
                assert(next =~= done.push(id));
                done.lemma_push_to_set_commute(id);
                assert(next.to_set() =~= done.to_set().insert(id));
                assert(self@.proposals =~= pre.proposals.remove_keys(next.to_set()));
                assert(next.map_values(|id: u64| pre.settlement_of(id)) =~= done.map_values(
                    |id: u64| pre.settlement_of(id),
                ).push(pre.settlement_of(id)));
                assert(accepted@.map_values(|s: ProposalSettlement| s@) =~= next.map_values(
                    |id: u64| pre.settlement_of(id),
                ));
            }
            j = j + 1;
        }
        self.acceptable_proposals.truncate(split);
        self.supply_left = self.supply_left - count;
        proof {
            let best = pre.best_proposals(count as nat);
            assert(best =~= pre.acceptable_proposals.subrange(split as int, n as int));
            let post = pre.after_accepting(count as nat);
            assert(self@ =~= post);
            let prefix = pre.acceptable_proposals.subrange(0, split as int);
            assert forall|i: int| 0 <= i < prefix.len() implies self@.proposals.contains_key(
                #[trigger] prefix[i],
            ) by {
                assert(prefix[i] == pre.acceptable_proposals[i]);
                if best.to_set().contains(prefix[i]) {
                    let k = choose|k: int| 0 <= k < best.len() && best[k] == prefix[i];
                    assert(pre.acceptable_proposals[split + k] == pre.acceptable_proposals[i]);
                }
            }
        }
        accepted
    }
}

} // verus!
