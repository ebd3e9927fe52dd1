use nest_oracle::oracle::{
    AssertTruthArgs, FtOnTransferMsg, NestOptimisticOracle, OracleError, SettleStep,
    TransferOutcome, DEFAULT_LIVENESS_NS, NUMERICAL_TRUE, SCALE,
};
use nest_oracle::voting::{
    FtOnTransferMsg as VoteMsg, ResolvePriceOutcome, Voting, DEFAULT_COMMIT_DURATION,
    DEFAULT_REVEAL_DURATION,
};

const DEFAULT_IDENTIFIER: [u8; 32] = *b"ASSERT_TRUTH\0\0\0\0\0\0\0\0\0\0\0\0\0\0\0\0\0\0\0\0";

fn or_panic<T>(r: Result<T, OracleError>) -> T {
    match r {
        Ok(v) => v,
        Err(e) => panic!("{}", e.message()),
    }
}

fn name(s: &str) -> String {
    s.to_string()
}

fn oracle_with_currency(final_fee: u128) -> NestOptimisticOracle {
    let mut contract = NestOptimisticOracle::new(name("owner.near"), name("usdc.near"), None, None, None).unwrap();
    contract.whitelist_currency(name("owner.near"), name("usdc.near"), final_fee).unwrap();
    contract
}

fn assert_simple(contract: &mut NestOptimisticOracle, claim: u8, liveness: u64, bond: u128) -> [u8; 32] {
    or_panic(contract.internal_assert_truth(
        [claim; 32],
        name("asserter.near"),
        None,
        None,
        Some(liveness),
        Some(0),
        name("usdc.near"),
        bond,
        None,
        None,
        None,
        name("caller.near"),
        1,
    ))
}

#[test]
fn test_new() {
    let currency = name("usdc.near");
    let contract = NestOptimisticOracle::new(name("owner.near"), currency.clone(), None, None, None).unwrap();

    assert_eq!(contract.default_identifier(), DEFAULT_IDENTIFIER);
    assert_eq!(contract.default_liveness(), DEFAULT_LIVENESS_NS);
    assert_eq!(contract.default_currency(), currency);
    assert!(contract.is_identifier_supported(DEFAULT_IDENTIFIER));
}

#[test]
fn test_new_with_voting_contract() {
    let voting = name("voting.near");
    let contract =
        NestOptimisticOracle::new(name("owner.near"), name("usdc.near"), None, None, Some(voting.clone())).unwrap();

    assert_eq!(contract.get_voting_contract(), Some(voting));
}

#[test]
fn test_get_minimum_bond() {
    let currency = name("usdc.near");
    let mut contract = NestOptimisticOracle::new(name("owner.near"), currency.clone(), None, None, None).unwrap();

    assert_eq!(contract.get_minimum_bond(currency.clone()), 0);

    contract.whitelist_currency(name("owner.near"), currency.clone(), SCALE).unwrap();

    let expected_min_bond = 2 * SCALE;
    assert_eq!(contract.get_minimum_bond(currency), expected_min_bond);
}

#[test]
fn test_set_voting_contract() {
    let voting = name("voting.near");
    let mut contract = NestOptimisticOracle::new(name("owner.near"), name("usdc.near"), None, None, None).unwrap();

    assert_eq!(contract.get_voting_contract(), None);

    contract.set_voting_contract(name("owner.near"), voting.clone()).unwrap();

    assert_eq!(contract.get_voting_contract(), Some(voting));
}

#[test]
fn test_settlement_payout_success_finalizes_assertion() {
    let mut contract = oracle_with_currency(1);
    let assertion_id = assert_simple(&mut contract, 1, 1, 10);

    contract.settle_assertion(assertion_id, 5).unwrap();

    let pending = contract.get_assertion(assertion_id).unwrap();
    assert!(!pending.settled);
    assert!(pending.settlement_pending);
    assert!(pending.settlement_in_flight);

    contract.on_settlement_payout_complete(assertion_id, true).unwrap();

    let finalized = contract.get_assertion(assertion_id).unwrap();
    assert!(finalized.settled);
    assert!(!finalized.settlement_pending);
    assert!(!finalized.settlement_in_flight);
    assert!(finalized.settlement_resolution);
}

#[test]
fn test_settlement_payout_failure_stays_pending_and_retryable() {
    let mut contract = oracle_with_currency(1);
    let assertion_id = assert_simple(&mut contract, 2, 1, 10);

    contract.settle_assertion(assertion_id, 5).unwrap();
    contract.on_settlement_payout_complete(assertion_id, false).unwrap();

    let failed = contract.get_assertion(assertion_id).unwrap();
    assert!(!failed.settled);
    assert!(failed.settlement_pending);
    assert!(!failed.settlement_in_flight);

    contract.retry_settlement_payout(assertion_id).unwrap();

    let retried = contract.get_assertion(assertion_id).unwrap();
    assert!(retried.settlement_pending);
    assert!(retried.settlement_in_flight);
}

#[test]
fn test_dispute_requires_exact_bond_amount() {
    let mut contract = oracle_with_currency(1);
    let assertion_id = assert_simple(&mut contract, 3, 100, 10);

    contract
        .internal_dispute_assertion(assertion_id, name("disputer.near"), name("usdc.near"), 10, name("disputer.near"), 10)
        .unwrap();

    let assertion = contract.get_assertion(assertion_id).unwrap();
    assert_eq!(assertion.disputer, Some(name("disputer.near")));
}

#[test]
#[should_panic(expected = "Dispute bond must match assertion bond")]
fn test_dispute_rejects_overpayment_bond_amount() {
    let mut contract = oracle_with_currency(1);
    let assertion_id = assert_simple(&mut contract, 4, 100, 10);

    or_panic(contract.internal_dispute_assertion(
        assertion_id,
        name("disputer.near"),
        name("usdc.near"),
        11,
        name("disputer.near"),
        10,
    ));
}

#[test]
fn underpaid_dispute_bond_is_refused_and_changes_nothing() {
    let mut contract = oracle_with_currency(1);
    let assertion_id = assert_simple(&mut contract, 5, 100, 10);
    let r = contract.internal_dispute_assertion(assertion_id, name("d.near"), name("usdc.near"), 9, name("d.near"), 10);
    assert_eq!(r.err(), Some(OracleError::DisputeBondMismatch));
    assert_eq!(contract.get_assertion(assertion_id).unwrap().disputer, None);
}

#[test]
fn identical_assertion_is_rejected_as_duplicate() {
    let mut contract = oracle_with_currency(1);
    let first = assert_simple(&mut contract, 6, 100, 10);
    let second = contract.internal_assert_truth(
        [6u8; 32],
        name("asserter.near"),
        None,
        None,
        Some(100),
        Some(0),
        name("usdc.near"),
        10,
        None,
        None,
        None,
        name("caller.near"),
        1,
    );
    assert_eq!(second, Err(OracleError::AssertionAlreadyExists));
    let other = assert_simple(&mut contract, 6, 101, 10);
    assert_ne!(first, other);
}

#[test]
fn assertion_id_is_keccak_of_parameters() {
    let mut contract = oracle_with_currency(1);
    let id = assert_simple(&mut contract, 7, 100, 10);
    let mut preimage = vec![7u8; 32];
    preimage.extend_from_slice(&10u128.to_le_bytes());
    preimage.extend_from_slice(&0u64.to_le_bytes());
    preimage.extend_from_slice(&100u64.to_le_bytes());
    preimage.extend_from_slice(&9u64.to_le_bytes());
    preimage.extend_from_slice(b"usdc.near");
    preimage.push(0);
    preimage.push(0);
    preimage.extend_from_slice(&DEFAULT_IDENTIFIER);
    preimage.extend_from_slice(&11u64.to_le_bytes());
    preimage.extend_from_slice(b"caller.near");
    assert_eq!(id, near_sdk::env::keccak256_array(&preimage));
}

#[test]
fn optional_accounts_in_different_slots_give_different_ids() {
    let claim = [7u8; 32];
    let a = NestOptimisticOracle::get_assertion_id(
        &claim, 10, 0, 100, &name("usdc.near"), &Some(name("x.near")), &None, &DEFAULT_IDENTIFIER, &name("c.near"),
    );
    let b = NestOptimisticOracle::get_assertion_id(
        &claim, 10, 0, 100, &name("usdc.near"), &None, &Some(name("x.near")), &DEFAULT_IDENTIFIER, &name("c.near"),
    );
    assert_ne!(a, b);
    // Moving a byte between adjacent names changes the id too.
    let c = NestOptimisticOracle::get_assertion_id(
        &claim, 10, 0, 100, &name("usdc.near"), &None, &None, &DEFAULT_IDENTIFIER, &name("ab"),
    );
    let d = NestOptimisticOracle::get_assertion_id(
        &claim, 10, 0, 100, &name("usdc.nea"), &None, &None, &DEFAULT_IDENTIFIER, &name("rab"),
    );
    assert_ne!(c, d);
}

#[test]
fn price_of_one_settles_true_and_zero_false() {
    assert_eq!(NUMERICAL_TRUE, 1);
    let mut contract = oracle_with_currency(1);
    contract.set_voting_contract(name("owner.near"), name("voting.near")).unwrap();
    let id = assert_simple(&mut contract, 14, 100, 10);
    contract
        .internal_dispute_assertion(id, name("d.near"), name("usdc.near"), 10, name("d.near"), 10)
        .unwrap();
    let p = contract.on_dvm_price_received(id, Some(Some(1))).unwrap();
    assert_eq!(p.recipient, "asserter.near");
    assert_eq!(p.amount, 15);
}

#[test]
fn retry_pays_the_recorded_amount_after_a_fee_change() {
    let mut contract = oracle_with_currency(1);
    let id = assert_simple(&mut contract, 15, 100, 10);
    contract
        .internal_dispute_assertion(id, name("d.near"), name("usdc.near"), 10, name("d.near"), 10)
        .unwrap();
    let first = contract.resolve_disputed_assertion(name("owner.near"), id, true).unwrap();
    assert_eq!(first.amount, 15);
    contract.on_settlement_payout_complete(id, false).unwrap();
    contract
        .set_admin_properties(name("owner.near"), name("usdc.near"), DEFAULT_LIVENESS_NS, SCALE)
        .unwrap();
    let retry = contract.retry_settlement_payout(id).unwrap();
    assert_eq!(retry.amount, 15);
    assert_eq!(retry.oracle_fee, first.oracle_fee);
    assert_eq!(retry.recipient, first.recipient);
    contract.on_settlement_payout_complete(id, true).unwrap();
    assert_eq!(contract.get_assertion_result(id), Ok(true));
}

#[test]
fn assertion_validation_errors() {
    let mut contract = oracle_with_currency(5);
    let mut call = |identifier: Option<[u8; 32]>, currency: &str, bond: u128, time: u64, liveness: u64| {
        contract.internal_assert_truth(
            [8u8; 32],
            name("a.near"),
            None,
            None,
            Some(liveness),
            Some(time),
            name(currency),
            bond,
            identifier,
            None,
            None,
            name("c.near"),
            1,
        )
    };
    assert_eq!(call(Some([1u8; 32]), "usdc.near", 100, 0, 1), Err(OracleError::UnsupportedIdentifier));
    assert_eq!(call(None, "dai.near", 100, 0, 1), Err(OracleError::UnsupportedCurrency));
    assert_eq!(call(None, "usdc.near", 9, 0, 1), Err(OracleError::BondTooLow));
    assert_eq!(call(None, "usdc.near", 10, u64::MAX, 1), Err(OracleError::ExpirationOverflow));
    assert!(call(None, "usdc.near", 10, 0, 1).is_ok());
}

#[test]
fn settling_twice_is_refused() {
    let mut contract = oracle_with_currency(1);
    let id = assert_simple(&mut contract, 9, 10, 10);
    assert_eq!(contract.settle_assertion(id, 5).err(), Some(OracleError::AssertionNotExpired));
    let step = contract.settle_assertion(id, 10).unwrap();
    match step {
        SettleStep::Payout(p) => {
            assert_eq!(p.recipient, "asserter.near");
            assert_eq!(p.amount, 10);
            assert!(!p.disputed);
        }
        _ => panic!("expected a payout"),
    }
    assert_eq!(contract.settle_assertion(id, 11).err(), Some(OracleError::SettlementPending));
    assert_eq!(contract.retry_settlement_payout(id).err(), Some(OracleError::PayoutInFlight));
    contract.on_settlement_payout_complete(id, true).unwrap();
    assert_eq!(contract.settle_assertion(id, 12).err(), Some(OracleError::AlreadySettled));
    assert_eq!(contract.retry_settlement_payout(id).err(), Some(OracleError::AlreadySettled));
    assert_eq!(contract.get_assertion_result(id), Ok(true));
}

#[test]
fn retry_pays_the_same_amount_once() {
    let mut contract = oracle_with_currency(1);
    let id = assert_simple(&mut contract, 10, 10, 10);
    let first = match contract.settle_assertion(id, 10).unwrap() {
        SettleStep::Payout(p) => p,
        _ => panic!("expected a payout"),
    };
    contract.on_settlement_payout_complete(id, false).unwrap();
    assert_eq!(contract.get_assertion_result(id), Err(OracleError::NotSettled));
    let retry = contract.retry_settlement_payout(id).unwrap();
    assert_eq!(retry.amount, first.amount);
    assert_eq!(retry.recipient, first.recipient);
    contract.on_settlement_payout_complete(id, true).unwrap();
    assert!(contract.get_assertion(id).unwrap().settled);
    assert_eq!(contract.on_settlement_payout_complete(id, true).err(), Some(OracleError::SettlementNotPending));
}

#[test]
fn resolved_callback_carries_the_hex_id() {
    let mut contract = oracle_with_currency(1);
    let id = or_panic(contract.internal_assert_truth(
        [11u8; 32],
        name("asserter.near"),
        Some(name("app.near")),
        None,
        Some(10),
        Some(0),
        name("usdc.near"),
        10,
        None,
        None,
        None,
        name("caller.near"),
        1,
    ));
    contract.settle_assertion(id, 10).unwrap();
    let cb = contract.on_settlement_payout_complete(id, true).unwrap().unwrap();
    let hex: String = id.iter().map(|b| format!("{:02x}", b)).collect();
    assert_eq!(cb.assertion_id, hex);
    assert_eq!(cb.recipient, "app.near");
    assert!(cb.asserted_truthfully);
}

#[test]
fn oracle_admin_is_owner_only() {
    let mut contract = oracle_with_currency(1);
    assert_eq!(contract.whitelist_identifier(name("x.near"), [1u8; 32]), Err(OracleError::Unauthorized));
    assert_eq!(contract.set_voting_contract(name("x.near"), name("v.near")), Err(OracleError::Unauthorized));
    assert_eq!(
        contract.set_admin_properties(name("owner.near"), name("usdc.near"), 5, SCALE + 1),
        Err(OracleError::BurnedBondTooHigh)
    );
    assert_eq!(
        contract.set_admin_properties(name("owner.near"), name("usdc.near"), 5, 0),
        Err(OracleError::BurnedBondZero)
    );
    contract.whitelist_identifier(name("owner.near"), [1u8; 32]).unwrap();
    assert!(contract.is_identifier_supported([1u8; 32]));
    assert!(NestOptimisticOracle::new(name("o"), name("c"), None, Some(0), None).is_err());
    assert_eq!(
        contract.emergency_withdraw_near(name("owner.near"), name("r.near"), 10, 5).err(),
        Some(OracleError::InsufficientBalance)
    );
    assert_eq!(
        contract.emergency_withdraw_token(name("owner.near"), name("t.near"), name("r.near"), 0).err(),
        Some(OracleError::AmountZero)
    );
}

#[test]
fn disputed_without_escalation_needs_the_owner() {
    let mut contract = oracle_with_currency(1);
    let id = assert_simple(&mut contract, 12, 100, 10);
    let esc = contract
        .internal_dispute_assertion(id, name("d.near"), name("usdc.near"), 10, name("d.near"), 10)
        .unwrap();
    assert!(esc.is_none());
    assert_eq!(contract.settle_assertion(id, 200).err(), Some(OracleError::NotEscalated));
    assert_eq!(
        contract.resolve_disputed_assertion(name("d.near"), id, false).err(),
        Some(OracleError::Unauthorized)
    );
    let p = contract.resolve_disputed_assertion(name("owner.near"), id, false).unwrap();
    assert_eq!(p.recipient, "d.near");
    // fee = 10 * 0.5 = 5; winner gets 20 - 5
    assert_eq!(p.oracle_fee, 5);
    assert_eq!(p.amount, 15);
    assert_eq!(p.fee_recipient, "owner.near");
}

#[test]
fn end_to_end_dispute_resolved_by_vote() {
    let bond = 2 * SCALE;
    let mut oracle = NestOptimisticOracle::new(
        name("owner.near"),
        name("usdc.near"),
        None,
        Some(SCALE / 2),
        Some(name("voting.near")),
    )
    .unwrap();
    oracle.whitelist_currency(name("owner.near"), name("usdc.near"), SCALE).unwrap();
    assert_eq!(oracle.get_minimum_bond(name("usdc.near")), bond);

    let args = AssertTruthArgs {
        claim: [42u8; 32],
        asserter: name("asserter.near"),
        callback_recipient: None,
        escalation_manager: None,
        liveness_ns: None,
        assertion_time_ns: None,
        identifier: None,
        domain_id: None,
        assertion_id_override: None,
    };
    let assertion_id = match or_panic(oracle.ft_on_transfer(
        name("usdc.near"),
        name("asserter.near"),
        bond,
        FtOnTransferMsg::AssertTruth(args),
        1_000,
    )) {
        TransferOutcome::Asserted { assertion_id } => assertion_id,
        _ => panic!("expected an assertion"),
    };

    let escalation = match or_panic(oracle.ft_on_transfer(
        name("usdc.near"),
        name("disputer.near"),
        bond,
        FtOnTransferMsg::DisputeAssertion { assertion_id, disputer: name("disputer.near") },
        2_000,
    )) {
        TransferOutcome::Disputed { escalation } => escalation.unwrap(),
        _ => panic!("expected a dispute"),
    };
    assert_eq!(oracle.get_assertion(assertion_id).unwrap().disputer, Some(name("disputer.near")));
    assert_eq!(escalation.identifier, "ASSERT_TRUTH");
    assert_eq!(escalation.ancillary_data, assertion_id.to_vec());
    assert_eq!(escalation.timestamp, 2_000);

    let mut voting = Voting::new(name("owner.near"));
    voting.set_voting_token(name("owner.near"), name("token.near")).unwrap();
    voting.set_treasury(name("owner.near"), name("treasury.near")).unwrap();
    let request_id = voting
        .request_price(name("oracle.near"), 2_000, escalation.identifier, escalation.timestamp, escalation.ancillary_data)
        .unwrap();
    oracle.on_dvm_request_complete(assertion_id, Some(request_id));
    assert_eq!(oracle.get_dispute_request(assertion_id), Some(request_id));

    let votes = [("v1.near", 0i128, 100u128, [1u8; 32]), ("v2.near", 1, 400, [2u8; 32]), ("v3.near", 1, 500, [3u8; 32])];
    for (voter, price, stake, salt) in votes.iter() {
        voting
            .ft_on_transfer(
                name("token.near"),
                name(voter),
                *stake,
                VoteMsg::CommitVote { request_id, commit_hash: Voting::compute_vote_hash_static(*price, *salt) },
                3_000,
            )
            .unwrap();
    }
    let reveal_start = 2_000 + DEFAULT_COMMIT_DURATION;
    voting.advance_to_reveal(request_id, reveal_start).unwrap();
    for (voter, price, _, salt) in votes.iter() {
        voting.reveal_vote(name(voter), request_id, *price, *salt, reveal_start + 1).unwrap();
    }
    let resolution = voting.resolve_price(request_id, reveal_start + DEFAULT_REVEAL_DURATION).unwrap();
    assert_eq!(resolution.outcome, ResolvePriceOutcome::Resolved { price: 1 });

    let query = oracle.settle_assertion(assertion_id, reveal_start + DEFAULT_REVEAL_DURATION).unwrap();
    match query {
        SettleStep::QueryPrice { request_id: asked, .. } => assert_eq!(asked, request_id),
        _ => panic!("expected a price query"),
    }
    let payout = oracle.on_dvm_price_received(assertion_id, Some(voting.get_price(request_id))).unwrap();
    let oracle_fee = bond / 2;
    assert_eq!(payout.recipient, "asserter.near");
    assert_eq!(payout.amount, 2 * bond - oracle_fee);
    assert_eq!(payout.oracle_fee, oracle_fee);
    oracle.on_settlement_payout_complete(assertion_id, true).unwrap();
    assert_eq!(oracle.get_assertion_result(assertion_id), Ok(true));
}

#[test]
fn unresolved_vote_blocks_settlement() {
    let mut contract = oracle_with_currency(1);
    let id = assert_simple(&mut contract, 13, 100, 10);
    contract.set_voting_contract(name("owner.near"), name("voting.near")).unwrap();
    contract
        .internal_dispute_assertion(id, name("d.near"), name("usdc.near"), 10, name("d.near"), 10)
        .unwrap();
    contract.on_dvm_request_complete(id, Some([5u8; 32]));
    assert!(contract.is_dispute_resolved(id));
    assert_eq!(contract.on_dvm_price_received(id, Some(None)).err(), Some(OracleError::DvmNotResolved));
    assert_eq!(contract.on_dvm_price_received(id, None).err(), Some(OracleError::DvmQueryFailed));
    let p = contract.on_dvm_price_received(id, Some(Some(0))).unwrap();
    assert_eq!(p.recipient, "d.near");
    assert_eq!(contract.on_dvm_price_received(id, Some(Some(0))).err(), Some(OracleError::SettlementPending));
}

#[test]
fn payout_transfers_send_the_fee_first_when_disputed() {
    let mut contract = oracle_with_currency(1);
    let id = assert_simple(&mut contract, 16, 100, 10);
    contract
        .internal_dispute_assertion(id, name("d.near"), name("usdc.near"), 10, name("d.near"), 10)
        .unwrap();
    let p = contract.resolve_disputed_assertion(name("owner.near"), id, false).unwrap();
    let t = p.transfers();
    assert_eq!(t.len(), 2);
    assert_eq!(t[0].recipient, "owner.near");
    assert_eq!(t[0].amount, 5);
    assert_eq!(t[1].recipient, "d.near");
    assert_eq!(t[1].amount, 15);
    let undisputed = assert_simple(&mut contract, 17, 1, 10);
    match contract.settle_assertion(undisputed, 5).unwrap() {
        SettleStep::Payout(p) => {
            let t = p.transfers();
            assert_eq!(t.len(), 1);
            assert_eq!(t[0].recipient, "asserter.near");
            assert_eq!(t[0].amount, 10);
        }
        _ => panic!("expected a payout"),
    }
}
