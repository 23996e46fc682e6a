use chrono::{DateTime, TimeZone, Utc};
use std::collections::HashMap;

use marketplace::context::CallContext;
use marketplace::error::FpoError;
use marketplace::index::AccountIndex;
use marketplace::marketplace::MarketplaceContract;
use marketplace::offering::{
    FixedPriceOffering, FixedPriceOfferingStatus, OfferingId, Proposal, ProposalSettlement,
};

const NFT_CONTRACT_ID: &str = "0.nft.eneftigo.testnet";
const NONEXISTENT_NFT_CONTRACT_ID: &str = "nonexistent.eneftigo.testnet";
const OFFEROR_ACCOUNT_ID: &str = "v-20220601151730-24646460642804";
const MALICIOUS_ACCOUNT_ID: &str = "malicious.eneftigo.testnet";
const PROPOSER1_ACCOUNT_ID: &str = "proposer1.eneftigo.testnet";
const PROPOSER2_ACCOUNT_ID: &str = "proposer2.eneftigo.testnet";

/* Helpers */

fn date(y: i32, mo: u32, d: u32, h: u32, mi: u32, s: u32) -> DateTime<Utc> {
    Utc.with_ymd_and_hms(y, mo, d, h, mi, s).unwrap()
}

fn test_get_context(malicious: bool, datetime: DateTime<Utc>, attached_deposit: u128) -> CallContext {
    let account_id = if malicious { MALICIOUS_ACCOUNT_ID } else { OFFEROR_ACCOUNT_ID };
    CallContext {
        signer_account_id: account_id.to_string(),
        predecessor_account_id: account_id.to_string(),
        block_timestamp: datetime.timestamp_nanos_opt().unwrap() as u64,
        attached_deposit,
        storage_byte_cost: 10_000_000_000_000_000_000,
    }
}

/// Reports a refusal as the contract does: by panicking with its message.
fn refuse(err: FpoError) -> ! {
    match err {
        FpoError::NotEnoughProposals { available } => panic!("{} ({})", err.message(), available),
        _ => panic!("{}", err.message()),
    }
}

fn test_marketplace() -> MarketplaceContract {
    MarketplaceContract::new(NFT_CONTRACT_ID.to_string())
}

fn offering_id() -> OfferingId {
    OfferingId { nft_contract_id: NFT_CONTRACT_ID.to_string(), collection_id: 0 }
}

fn test_fpo(supply: u64) -> FixedPriceOffering {
    let start_timestamp = DateTime::parse_from_rfc3339("1975-05-26T00:00:00+00:00")
        .unwrap()
        .timestamp_nanos_opt()
        .unwrap();
    let end_timestamp = DateTime::parse_from_rfc3339("1975-06-10T00:00:00+00:00")
        .unwrap()
        .timestamp_nanos_opt()
        .unwrap();
    FixedPriceOffering {
        offering_id: offering_id(),
        offeror_id: OFFEROR_ACCOUNT_ID.to_string(),
        supply_total: supply,
        buy_now_price_yocto: 1000,
        min_proposal_price_yocto: Some(500),
        start_timestamp: Some(start_timestamp),
        end_timestamp: Some(end_timestamp),
        status: FixedPriceOfferingStatus::Unstarted,
        supply_left: supply,
        proposals: HashMap::new(),
        proposals_by_proposer: AccountIndex::new(),
        acceptable_proposals: Vec::new(),
        next_proposal_id: 0,
    }
}

fn test_place_proposals(fpo: &mut FixedPriceOffering) {
    let proposals = vec![
        Proposal { id: 1, proposer_id: PROPOSER1_ACCOUNT_ID.to_string(), price_yocto: 500, is_acceptable: true },
        Proposal { id: 2, proposer_id: PROPOSER2_ACCOUNT_ID.to_string(), price_yocto: 900, is_acceptable: true },
        Proposal { id: 3, proposer_id: PROPOSER2_ACCOUNT_ID.to_string(), price_yocto: 700, is_acceptable: true },
    ];
    for proposal in proposals {
        fpo.proposals_by_proposer.insert_member(proposal.proposer_id.clone(), proposal.id);
        fpo.proposals.insert(proposal.id, proposal);
    }
    fpo.acceptable_proposals.extend(vec![1, 3, 2]);
}

fn test_add_fpo(marketplace: &mut MarketplaceContract, fpo: FixedPriceOffering) {
    marketplace.internal_add_fpo(fpo);
}

fn settlement(s: &ProposalSettlement) -> (u64, String, u128) {
    (s.proposal_id, s.proposer_id.clone(), s.price_yocto)
}

/*
 * fpo_add_accepting_proposals assertions
 */

#[test]
#[should_panic(expected = r#"Price cannot be lower than 1000 yoctoNear"#)]
fn test_add_buy_now_price_too_low() {
    let context = test_get_context(false, date(1975, 5, 24, 13, 10, 0), 9570000000000000000000);
    let mut marketplace = test_marketplace();
    let r = marketplace.fpo_add_accepting_proposals(
        2,
        800,
        50,
        None,
        "1975-06-24T00:00:00+00:00".to_string(),
        &context,
    );
    refuse(r.err().unwrap());
}

#[test]
#[should_panic(expected = r#"Prices must be integer multiple of 10 yoctoNear"#)]
fn test_add_buy_now_price_not_multiple_of_step() {
    let context = test_get_context(false, date(1975, 5, 24, 13, 10, 0), 9570000000000000000000);
    let mut marketplace = test_marketplace();
    let r = marketplace.fpo_add_accepting_proposals(
        2,
        1115,
        50,
        None,
        "1975-06-24T00:00:00+00:00".to_string(),
        &context,
    );
    refuse(r.err().unwrap());
}

#[test]
#[should_panic(expected = r#"Prices must be integer multiple of 10 yoctoNear"#)]
fn test_add_min_proposal_price_not_multiple_of_step() {
    let context = test_get_context(false, date(1975, 5, 24, 13, 10, 0), 9570000000000000000000);
    let mut marketplace = test_marketplace();
    let r = marketplace.fpo_add_accepting_proposals(
        2,
        1200,
        55,
        None,
        "1975-06-24T00:00:00+00:00".to_string(),
        &context,
    );
    refuse(r.err().unwrap());
}

#[test]
#[should_panic(expected = r#"Min proposal price must be lower than buy now price"#)]
fn test_add_buy_now_price_not_higher_than_min_proposal_price() {
    let context = test_get_context(false, date(1975, 5, 24, 13, 10, 0), 9490000000000000000000);
    let mut marketplace = test_marketplace();
    let r = marketplace.fpo_add_accepting_proposals(
        2,
        1100,
        1100,
        None,
        "1975-06-24T00:00:00+00:00".to_string(),
        &context,
    );
    refuse(r.err().unwrap());
}

#[test]
#[should_panic(expected = r#"End date is into the past"#)]
fn test_end_date_into_the_past() {
    let context = test_get_context(false, date(1975, 5, 24, 13, 10, 0), 9490000000000000000000);
    let mut marketplace = test_marketplace();
    let r = marketplace.fpo_add_accepting_proposals(
        2,
        1100,
        500,
        None,
        "1975-04-24T00:00:00+00:00".to_string(),
        &context,
    );
    refuse(r.err().unwrap());
}

#[test]
#[should_panic(expected = r#"Start date is into the past"#)]
fn test_start_date_into_the_past() {
    let context = test_get_context(false, date(1975, 5, 24, 13, 10, 0), 9570000000000000000000);
    let mut marketplace = test_marketplace();
    let r = marketplace.fpo_add_accepting_proposals(
        2,
        1100,
        500,
        Some("1975-04-24T00:00:00+00:00".to_string()),
        "1975-06-24T00:00:00+00:00".to_string(),
        &context,
    );
    refuse(r.err().unwrap());
}

#[test]
#[should_panic(expected = r#"Offering duration too short"#)]
fn test_duration_too_short() {
    let context = test_get_context(false, date(1975, 5, 24, 13, 10, 0), 9570000000000000000000);
    let mut marketplace = test_marketplace();
    let r = marketplace.fpo_add_accepting_proposals(
        2,
        1100,
        500,
        Some("1975-05-24T13:10:00+00:00".to_string()),
        "1975-05-24T13:50:00+00:00".to_string(),
        &context,
    );
    refuse(r.err().unwrap());
}

#[test]
#[should_panic(expected = r#"Offering duration too long"#)]
fn test_duration_too_long() {
    let context = test_get_context(false, date(1975, 5, 24, 13, 10, 0), 9570000000000000000000);
    let mut marketplace = test_marketplace();
    let r = marketplace.fpo_add_accepting_proposals(
        2,
        1100,
        500,
        Some("1975-05-24T13:10:00+00:00".to_string()),
        "1975-06-15T13:50:00+00:00".to_string(),
        &context,
    );
    refuse(r.err().unwrap());
}

#[test]
#[should_panic(expected = r#"Max NFT supply must be between 1 and 100"#)]
fn test_supply_of_zero() {
    let context = test_get_context(false, date(1975, 5, 24, 13, 10, 0), 9570000000000000000000);
    let mut marketplace = test_marketplace();
    let r = marketplace.fpo_add_accepting_proposals(
        0,
        1100,
        500,
        None,
        "1975-05-24T13:50:00+00:00".to_string(),
        &context,
    );
    refuse(r.err().unwrap());
}

#[test]
#[should_panic(expected = r#"Max NFT supply must be between 1 and 100"#)]
fn test_supply_too_many() {
    let context = test_get_context(false, date(1975, 5, 24, 13, 10, 0), 9570000000000000000000);
    let mut marketplace = test_marketplace();
    let r = marketplace.fpo_add_accepting_proposals(
        101,
        1100,
        500,
        None,
        "1975-05-24T13:50:00+00:00".to_string(),
        &context,
    );
    refuse(r.err().unwrap());
}

#[test]
#[should_panic(expected = r#"Wrong date format. Must be ISO8601/RFC3339 (f.ex. 2022-01-22T11:20:55+08:00)"#)]
fn test_wrong_end_date_format() {
    let context = test_get_context(false, date(1975, 5, 24, 13, 10, 0), 9570000000000000000000);
    let mut marketplace = test_marketplace();
    let r = marketplace.fpo_add_accepting_proposals(
        50,
        1100,
        500,
        None,
        "1975-5-24T13:50:00+00:00".to_string(),
        &context,
    );
    refuse(r.err().unwrap());
}

#[test]
#[should_panic(expected = r#"Wrong date format. Must be ISO8601/RFC3339 (f.ex. 2022-01-22T11:20:55+08:00)"#)]
fn test_wrong_start_date_format() {
    let context = test_get_context(false, date(1975, 5, 24, 13, 10, 0), 9570000000000000000000);
    let mut marketplace = test_marketplace();
    let r = marketplace.fpo_add_accepting_proposals(
        50,
        1100,
        500,
        Some("1975-05-24".to_string()),
        "1975-5-24T13:50:00+00:00".to_string(),
        &context,
    );
    refuse(r.err().unwrap());
}

/*
 * fpo_add_buy_now_only assertions
 */

#[test]
#[should_panic(expected = r#"Price cannot be lower than 1000 yoctoNear"#)]
fn test_buy_now_add_buy_now_price_too_low() {
    let context = test_get_context(false, date(1975, 5, 24, 13, 10, 0), 9570000000000000000000);
    let mut marketplace = test_marketplace();
    let r = marketplace.fpo_add_buy_now_only(2, 800, None, None, &context);
    refuse(r.err().unwrap());
}

#[test]
#[should_panic(expected = r#"Price must be integer multiple of 10 yoctoNear"#)]
fn test_buy_now_add_buy_now_price_not_multiple_of_step() {
    let context = test_get_context(false, date(1975, 5, 24, 13, 10, 0), 9490000000000000000000);
    let mut marketplace = test_marketplace();
    let r = marketplace.fpo_add_buy_now_only(2, 1115, None, None, &context);
    refuse(r.err().unwrap());
}

#[test]
#[should_panic(expected = r#"End date is into the past"#)]
fn test_buy_now_end_date_into_the_past() {
    let context = test_get_context(false, date(1975, 5, 24, 13, 10, 0), 9490000000000000000000);
    let mut marketplace = test_marketplace();
    let r = marketplace.fpo_add_buy_now_only(
        2,
        1100,
        None,
        Some("1975-04-24T00:00:00+00:00".to_string()),
        &context,
    );
    refuse(r.err().unwrap());
}

#[test]
#[should_panic(expected = r#"Start date is into the past"#)]
fn test_buy_now_start_date_into_the_past() {
    let context = test_get_context(false, date(1975, 5, 24, 13, 10, 0), 9490000000000000000000);
    let mut marketplace = test_marketplace();
    let r = marketplace.fpo_add_buy_now_only(
        2,
        1100,
        Some("1975-04-24T00:00:00+00:00".to_string()),
        None,
        &context,
    );
    refuse(r.err().unwrap());
}

#[test]
#[should_panic(expected = r#"Offering duration too short"#)]
fn test_buy_now_duration_too_short() {
    let context = test_get_context(false, date(1975, 5, 24, 13, 10, 0), 9570000000000000000000);
    let mut marketplace = test_marketplace();
    let r = marketplace.fpo_add_buy_now_only(
        2,
        1100,
        Some("1975-05-24T13:10:00+00:00".to_string()),
        Some("1975-05-24T13:50:00+00:00".to_string()),
        &context,
    );
    refuse(r.err().unwrap());
}

#[test]
#[should_panic(expected = r#"Max NFT supply must be between 1 and 100"#)]
fn test_buy_now_supply_of_zero() {
    let context = test_get_context(false, date(1975, 5, 24, 13, 10, 0), 9490000000000000000000);
    let mut marketplace = test_marketplace();
    let r = marketplace.fpo_add_buy_now_only(0, 1100, None, None, &context);
    refuse(r.err().unwrap());
}

#[test]
#[should_panic(expected = r#"Max NFT supply must be between 1 and 100"#)]
fn test_buy_now_supply_too_many() {
    let context = test_get_context(false, date(1975, 5, 24, 13, 10, 0), 9490000000000000000000);
    let mut marketplace = test_marketplace();
    let r = marketplace.fpo_add_buy_now_only(101, 1100, None, None, &context);
    refuse(r.err().unwrap());
}

#[test]
#[should_panic(expected = r#"Wrong date format. Must be ISO8601/RFC3339 (f.ex. 2022-01-22T11:20:55+08:00)"#)]
fn test_buy_now_wrong_end_date_format() {
    let context = test_get_context(false, date(1975, 5, 24, 13, 10, 0), 9490000000000000000000);
    let mut marketplace = test_marketplace();
    let r = marketplace.fpo_add_buy_now_only(
        50,
        1100,
        None,
        Some("1975-5-24T13:50:00+00:00".to_string()),
        &context,
    );
    refuse(r.err().unwrap());
}

#[test]
#[should_panic(expected = r#"Wrong date format. Must be ISO8601/RFC3339 (f.ex. 2022-01-22T11:20:55+08:00)"#)]
fn test_buy_now_wrong_start_date_format() {
    let context = test_get_context(false, date(1975, 5, 24, 13, 10, 0), 9490000000000000000000);
    let mut marketplace = test_marketplace();
    let r = marketplace.fpo_add_buy_now_only(50, 1100, Some("1975-05-24".to_string()), None, &context);
    refuse(r.err().unwrap());
}

#[test]
fn test_buy_now_success() {
    let context = test_get_context(false, date(1975, 5, 24, 13, 10, 0), 10450000000000000000000);
    let mut marketplace = test_marketplace();
    let call = marketplace.fpo_add_buy_now_only(10, 1000, None, None, &context).unwrap();
    assert_eq!(call.collection_id, 0);
    assert_eq!(call.supply_total, 10);
    assert_eq!(call.nft_contract_id, NFT_CONTRACT_ID);
    assert_eq!(call.storage_deposit_yocto, 8380000000000000000000);
    assert_eq!(marketplace.next_collection_id, 1);
    let fpo = marketplace.get_fpo(&offering_id()).expect("Could not get new FPO");
    assert_eq!(fpo.offeror_id, OFFEROR_ACCOUNT_ID);
    assert_eq!(fpo.supply_left, 10);
    assert_eq!(fpo.buy_now_price_yocto, 1000);
    assert_eq!(fpo.min_proposal_price_yocto, None);
    assert_eq!(fpo.start_timestamp, None);
    assert_eq!(fpo.end_timestamp, None);
    assert_eq!(fpo.status, FixedPriceOfferingStatus::Unstarted);
}

/*
 * fpo_accept_proposals
 */

#[test]
#[should_panic(expected = r#"Only the offeror can accept proposals"#)]
fn test_accepting_proposals_by_unauthorized_user() {
    let context = test_get_context(true, date(1975, 5, 24, 13, 10, 0), 8380000000000000000000);
    let mut marketplace = test_marketplace();
    let mut fpo = test_fpo(3);
    test_place_proposals(&mut fpo);
    test_add_fpo(&mut marketplace, fpo);
    let r = marketplace.fpo_accept_proposals(NFT_CONTRACT_ID.to_string(), 0, 1, &context);
    refuse(r.err().unwrap());
}

#[test]
#[should_panic(expected = r#"Could not find NFT listing"#)]
fn test_accepting_proposals_for_nonexistent_offering() {
    let context = test_get_context(true, date(1975, 5, 24, 13, 10, 0), 8380000000000000000000);
    let mut marketplace = test_marketplace();
    let mut fpo = test_fpo(3);
    test_place_proposals(&mut fpo);
    test_add_fpo(&mut marketplace, fpo);
    let r = marketplace.fpo_accept_proposals(NONEXISTENT_NFT_CONTRACT_ID.to_string(), 0, 1, &context);
    refuse(r.err().unwrap());
}

#[test]
#[should_panic(expected = r#"There's not enough proposals (3)"#)]
fn test_accepting_too_many_proposals() {
    let context = test_get_context(false, date(1975, 5, 24, 13, 10, 0), 8380000000000000000000);
    let mut marketplace = test_marketplace();
    let mut fpo = test_fpo(3);
    test_place_proposals(&mut fpo);
    test_add_fpo(&mut marketplace, fpo);
    let r = marketplace.fpo_accept_proposals(NFT_CONTRACT_ID.to_string(), 0, 4, &context);
    refuse(r.err().unwrap());
}

#[test]
fn test_accepting_proposals_batches() {
    let context = test_get_context(false, date(1975, 5, 24, 13, 10, 0), 8380000000000000000000);
    let mut marketplace = test_marketplace();
    let mut fpo = test_fpo(3);
    test_place_proposals(&mut fpo);
    test_add_fpo(&mut marketplace, fpo);

    let sold = marketplace.fpo_accept_proposals(NFT_CONTRACT_ID.to_string(), 0, 1, &context).unwrap();
    assert_eq!(
        sold.iter().map(settlement).collect::<Vec<_>>(),
        vec![(2, PROPOSER2_ACCOUNT_ID.to_string(), 900)]
    );

    let fpo = marketplace.get_fpo(&offering_id()).expect("Could not get updated FPO");
    assert!(fpo.acceptable_proposals.len() == 2, "Wrong number of acceptable_proposals");
    assert!(fpo.acceptable_proposals == vec![1, 3], "acceptable_proposals content incorrect");
    assert!(
        fpo.proposals.get(&1).is_some() && fpo.proposals.get(&2).is_none() && fpo.proposals.get(&3).is_some(),
        "proposals content incorrect"
    );
    let proposals_by_proposer1 =
        fpo.proposals_by_proposer.get(&PROPOSER1_ACCOUNT_ID.to_string()).unwrap();
    assert!(proposals_by_proposer1.contains(&1), "proposals_by_proposer incorrect for proposer1");
    let proposals_by_proposer2 =
        fpo.proposals_by_proposer.get(&PROPOSER2_ACCOUNT_ID.to_string()).unwrap();
    assert!(
        !proposals_by_proposer2.contains(&2) && proposals_by_proposer2.contains(&3),
        "proposals_by_proposer incorrect for proposer2"
    );
    assert!(fpo.supply_left == 2, "Wrong supply_left");

    let sold = marketplace.fpo_accept_proposals(NFT_CONTRACT_ID.to_string(), 0, 2, &context).unwrap();
    assert_eq!(
        sold.iter().map(settlement).collect::<Vec<_>>(),
        vec![(1, PROPOSER1_ACCOUNT_ID.to_string(), 500), (3, PROPOSER2_ACCOUNT_ID.to_string(), 700)]
    );
    let fpo = marketplace.get_fpo(&offering_id()).expect("Could not get updated FPO");
    assert!(fpo.acceptable_proposals.is_empty(), "Wrong number of acceptable_proposals");
    assert!(
        fpo.proposals.get(&1).is_none() && fpo.proposals.get(&2).is_none() && fpo.proposals.get(&3).is_none(),
        "proposals content incorrect"
    );
    assert!(
        fpo.proposals_by_proposer.get(&PROPOSER1_ACCOUNT_ID.to_string()).is_none(),
        "proposals_by_proposer exist for proposer1"
    );
    assert!(
        fpo.proposals_by_proposer.get(&PROPOSER2_ACCOUNT_ID.to_string()).is_none(),
        "proposals_by_proposer exist for proposer2"
    );
    assert!(fpo.supply_left == 0, "Wrong supply_left");
}

#[test]
fn test_accepting_proposals_all_at_once() {
    let context = test_get_context(false, date(1975, 5, 24, 13, 10, 0), 8380000000000000000000);
    let mut marketplace = test_marketplace();
    let mut fpo = test_fpo(3);
    test_place_proposals(&mut fpo);
    test_add_fpo(&mut marketplace, fpo);

    let sold = marketplace.fpo_accept_proposals(NFT_CONTRACT_ID.to_string(), 0, 3, &context).unwrap();
    assert_eq!(
        sold.iter().map(settlement).collect::<Vec<_>>(),
        vec![
            (1, PROPOSER1_ACCOUNT_ID.to_string(), 500),
            (3, PROPOSER2_ACCOUNT_ID.to_string(), 700),
            (2, PROPOSER2_ACCOUNT_ID.to_string(), 900),
        ]
    );

    let fpo = marketplace.get_fpo(&offering_id()).expect("Could not get updated FPO");
    assert!(fpo.acceptable_proposals.is_empty(), "Some acceptable_proposals are left");
    assert!(
        fpo.proposals.get(&1).is_none() && fpo.proposals.get(&2).is_none() && fpo.proposals.get(&3).is_none(),
        "proposals content incorrect"
    );
    assert!(
        fpo.proposals_by_proposer.get(&PROPOSER1_ACCOUNT_ID.to_string()).is_none(),
        "proposals_by_proposer left for proposer1"
    );
    assert!(
        fpo.proposals_by_proposer.get(&PROPOSER2_ACCOUNT_ID.to_string()).is_none(),
        "proposals_by_proposer left for proposer2"
    );
    assert!(fpo.supply_left == 0, "Some supply_left");
}

/*
 * fpo_conclude
 */

#[test]
#[should_panic(expected = r#"Only the offeror can conclude"#)]
fn test_conclude_by_unauthorized_user() {
    let context = test_get_context(true, date(1975, 5, 24, 13, 10, 0), 8380000000000000000000);
    let mut marketplace = test_marketplace();
    let mut fpo = test_fpo(3);
    test_place_proposals(&mut fpo);
    test_add_fpo(&mut marketplace, fpo);
    let r = marketplace.fpo_conclude(NFT_CONTRACT_ID.to_string(), 0, &context);
    refuse(r.err().unwrap());
}

#[test]
#[should_panic(expected = r#"Could not find NFT listing"#)]
fn test_conclude_nonexistent_offering() {
    let context = test_get_context(false, date(1975, 5, 24, 13, 10, 0), 8380000000000000000000);
    let mut marketplace = test_marketplace();
    let mut fpo = test_fpo(3);
    test_place_proposals(&mut fpo);
    test_add_fpo(&mut marketplace, fpo);
    let r = marketplace.fpo_conclude(NONEXISTENT_NFT_CONTRACT_ID.to_string(), 0, &context);
    refuse(r.err().unwrap());
}

#[test]
fn test_conclude_before_start_date() {
    let context = test_get_context(false, date(1975, 5, 24, 0, 0, 0), 8380000000000000000000);
    let mut marketplace = test_marketplace();
    let mut fpo = test_fpo(3);
    test_place_proposals(&mut fpo);
    test_add_fpo(&mut marketplace, fpo);
    let refunds = marketplace.fpo_conclude(NFT_CONTRACT_ID.to_string(), 0, &context).unwrap();
    assert_eq!(
        refunds.iter().map(settlement).collect::<Vec<_>>(),
        vec![
            (1, PROPOSER1_ACCOUNT_ID.to_string(), 500),
            (3, PROPOSER2_ACCOUNT_ID.to_string(), 700),
            (2, PROPOSER2_ACCOUNT_ID.to_string(), 900),
        ]
    );

    assert!(marketplace.fpos_by_id.is_empty(), "fpos_by_contract_id not empty");
    assert!(
        marketplace.fpos_by_offeror_id.get(&OFFEROR_ACCOUNT_ID.to_string()).is_none(),
        "fpos_by_contract_id not empty"
    );
}

#[test]
fn test_conclude_after_end_date() {
    let context = test_get_context(false, date(1975, 7, 24, 0, 0, 0), 8380000000000000000000);
    let mut marketplace = test_marketplace();
    let mut fpo = test_fpo(3);
    test_place_proposals(&mut fpo);
    test_add_fpo(&mut marketplace, fpo);
    marketplace.fpo_conclude(NFT_CONTRACT_ID.to_string(), 0, &context).unwrap();

    assert!(marketplace.fpos_by_id.is_empty(), "fpos_by_contract_id not empty");
    assert!(
        marketplace.fpos_by_offeror_id.get(&OFFEROR_ACCOUNT_ID.to_string()).is_none(),
        "fpos_by_contract_id not empty"
    );
}

#[test]
#[should_panic(expected = r#"Cannot conclude an offering while it's running"#)]
fn test_conclude_while_running_and_supply_left() {
    let context = test_get_context(false, date(1975, 6, 1, 0, 0, 0), 8380000000000000000000);
    let mut marketplace = test_marketplace();
    let mut fpo = test_fpo(3);
    test_place_proposals(&mut fpo);
    test_add_fpo(&mut marketplace, fpo);
    let r = marketplace.fpo_conclude(NFT_CONTRACT_ID.to_string(), 0, &context);
    refuse(r.err().unwrap());
}

#[test]
fn test_conclude_while_running_and_supply_zero() {
    let context = test_get_context(false, date(1975, 6, 1, 0, 0, 0), 8380000000000000000000);
    let mut marketplace = test_marketplace();
    let fpo = test_fpo(0);
    test_add_fpo(&mut marketplace, fpo);
    let refunds = marketplace.fpo_conclude(NFT_CONTRACT_ID.to_string(), 0, &context).unwrap();
    assert!(refunds.is_empty());
    assert!(marketplace.fpos_by_id.is_empty());
}
