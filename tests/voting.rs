use nest_oracle::tally::{
    bps_share, distribute_rewards_and_slashing, mul_div, stake_weighted_median, RevealedVote,
    VoteCommitment, VoterEntry,
};
use nest_oracle::voting::{
    FtOnTransferMsg, RequestStatus, ResolvePriceOutcome, Voting, VotingError, VotingPhase,
    DEFAULT_COMMIT_DURATION, DEFAULT_REVEAL_DURATION,
};

const TOKEN_ACCOUNT: &str = "token.testnet";
const TREASURY_ACCOUNT: &str = "treasury.testnet";

fn accounts(i: usize) -> String {
    ["alice.near", "bob.near", "charlie.near", "danny.near", "eugene.near"][i].to_string()
}

fn account(id: &str) -> String {
    id.to_string()
}

fn setup_contract() -> Voting {
    let mut contract = Voting::new(accounts(0));
    contract.set_voting_token(accounts(0), account(TOKEN_ACCOUNT)).unwrap();
    contract.set_treasury(accounts(0), account(TREASURY_ACCOUNT)).unwrap();
    contract
}

fn or_panic<T>(r: Result<T, VotingError>) -> T {
    match r {
        Ok(v) => v,
        Err(e) => panic!("{}", e.message()),
    }
}

fn commit(contract: &mut Voting, voter: String, stake: u128, request_id: [u8; 32], commit_hash: [u8; 32], now: u64) {
    or_panic(contract.ft_on_transfer(
        account(TOKEN_ACCOUNT),
        voter,
        stake,
        FtOnTransferMsg::CommitVote { request_id, commit_hash },
        now,
    ));
}

#[test]
fn lib_test_new() {
    let contract = Voting::new(accounts(0));
    assert_eq!(contract.get_owner(), accounts(0));

    let (commit_dur, reveal_dur, min_part) = contract.get_config();
    assert_eq!(commit_dur, DEFAULT_COMMIT_DURATION);
    assert_eq!(reveal_dur, DEFAULT_REVEAL_DURATION);
    assert_eq!(min_part, 500);
}

#[test]
fn test_request_price() {
    let mut contract = Voting::new(accounts(0));

    let request_id = contract
        .request_price(accounts(0), 0, "YES_OR_NO_QUERY".to_string(), 1000, b"test claim".to_vec())
        .unwrap();

    let request = contract.get_request(request_id).unwrap();
    assert_eq!(request.identifier, "YES_OR_NO_QUERY");
    assert_eq!(request.timestamp, 1000);
    assert_eq!(request.status, RequestStatus::Active);
    assert_eq!(request.phase, VotingPhase::Commit);
    assert_eq!(request.revealed_stake, 0);
}

#[test]
fn test_multiple_requests_same_params() {
    let mut contract = Voting::new(accounts(0));

    let request_id_1 = contract
        .request_price(accounts(0), 0, "YES_OR_NO_QUERY".to_string(), 1000, b"test".to_vec())
        .unwrap();
    let request_id_2 = contract
        .request_price(accounts(0), 0, "YES_OR_NO_QUERY".to_string(), 1000, b"test".to_vec())
        .unwrap();

    assert_ne!(request_id_1, request_id_2);
}

#[test]
fn test_commit_vote_via_ft_transfer_call() {
    let mut contract = setup_contract();
    let request_id = contract
        .request_price(accounts(0), 0, "YES_OR_NO_QUERY".to_string(), 1000, b"test".to_vec())
        .unwrap();

    let salt = [7u8; 32];
    let commit_hash = Voting::compute_vote_hash_static(1_000, salt);
    commit(&mut contract, accounts(1), 1_000, request_id, commit_hash, 1);

    assert_eq!(contract.get_total_committed_stake(request_id), 1000);
}

#[test]
#[should_panic(expected = "Only voting token can call ft_on_transfer")]
fn test_commit_wrong_token_rejected() {
    let mut contract = setup_contract();
    let request_id = contract
        .request_price(accounts(0), 0, "YES_OR_NO_QUERY".to_string(), 1000, b"test".to_vec())
        .unwrap();

    let salt = [9u8; 32];
    let commit_hash = Voting::compute_vote_hash_static(1_000, salt);
    or_panic(contract.ft_on_transfer(
        accounts(1),
        accounts(1),
        1_000,
        FtOnTransferMsg::CommitVote { request_id, commit_hash },
        1,
    ));
}

#[test]
fn test_advance_to_reveal() {
    let mut contract = Voting::new(accounts(0));
    let request_id = contract
        .request_price(accounts(0), 0, "YES_OR_NO_QUERY".to_string(), 1000, b"test".to_vec())
        .unwrap();

    contract.advance_to_reveal(request_id, DEFAULT_COMMIT_DURATION + 1).unwrap();

    let phase = contract.get_phase(request_id).unwrap();
    assert_eq!(phase, VotingPhase::Reveal);
}

#[test]
#[should_panic(expected = "Commit phase not yet ended")]
fn test_advance_too_early() {
    let mut contract = Voting::new(accounts(0));
    let request_id = contract
        .request_price(accounts(0), 0, "YES_OR_NO_QUERY".to_string(), 1000, b"test".to_vec())
        .unwrap();

    or_panic(contract.advance_to_reveal(request_id, 1000));
}

#[test]
fn test_set_config() {
    let mut contract = Voting::new(accounts(0));

    contract.set_commit_phase_duration(accounts(0), 100).unwrap();
    contract.set_reveal_phase_duration(accounts(0), 200).unwrap();
    contract.set_min_participation_rate(accounts(0), 1000).unwrap();

    let (commit_dur, reveal_dur, min_part) = contract.get_config();
    assert_eq!(commit_dur, 100);
    assert_eq!(reveal_dur, 200);
    assert_eq!(min_part, 1000);
}

#[test]
#[should_panic(expected = "Only owner can call this method")]
fn test_set_config_unauthorized() {
    let mut contract = Voting::new(accounts(0));
    or_panic(contract.set_commit_phase_duration(accounts(1), 100));
}

#[test]
fn test_transfer_ownership() {
    let mut contract = Voting::new(accounts(0));

    contract.set_owner(accounts(0), accounts(1)).unwrap();
    assert_eq!(contract.get_owner(), accounts(1));

    contract.set_commit_phase_duration(accounts(1), 100).unwrap();
}

#[test]
fn test_has_price() {
    let mut contract = Voting::new(accounts(0));
    let request_id = contract
        .request_price(accounts(0), 0, "YES_OR_NO_QUERY".to_string(), 1000, b"test".to_vec())
        .unwrap();

    assert!(!contract.has_price(request_id));
}

#[test]
fn test_resolve_price_weighted_median() {
    let mut contract = setup_contract();
    contract.set_min_participation_rate(accounts(0), 0).unwrap();

    let request_id = contract
        .request_price(accounts(0), 0, "YES_OR_NO_QUERY".to_string(), 1000, b"test".to_vec())
        .unwrap();

    let v1_salt = [1u8; 32];
    let v2_salt = [2u8; 32];
    let v3_salt = [3u8; 32];
    let v1_hash = Voting::compute_vote_hash_static(0, v1_salt);
    let v2_hash = Voting::compute_vote_hash_static(1, v2_salt);
    let v3_hash = Voting::compute_vote_hash_static(1, v3_salt);

    commit(&mut contract, accounts(1), 100, request_id, v1_hash, 1);
    commit(&mut contract, accounts(2), 400, request_id, v2_hash, 1);
    commit(&mut contract, accounts(3), 500, request_id, v3_hash, 1);

    contract.advance_to_reveal(request_id, DEFAULT_COMMIT_DURATION + 2).unwrap();

    contract.reveal_vote(accounts(1), request_id, 0, v1_salt, DEFAULT_COMMIT_DURATION + 3).unwrap();
    contract.reveal_vote(accounts(2), request_id, 1, v2_salt, DEFAULT_COMMIT_DURATION + 4).unwrap();
    contract.reveal_vote(accounts(3), request_id, 1, v3_salt, DEFAULT_COMMIT_DURATION + 5).unwrap();

    let outcome = contract
        .resolve_price(request_id, DEFAULT_COMMIT_DURATION + DEFAULT_REVEAL_DURATION + 10)
        .unwrap()
        .outcome;
    assert_eq!(outcome, ResolvePriceOutcome::Resolved { price: 1 });
    assert!(contract.has_price(request_id));
}

#[test]
fn test_low_participation_requires_emergency() {
    let mut contract = setup_contract();
    contract.set_min_participation_rate(accounts(0), 9_000).unwrap();
    contract.set_max_low_participation_extensions(accounts(0), 0).unwrap();

    let request_id = contract
        .request_price(accounts(0), 0, "YES_OR_NO_QUERY".to_string(), 1000, b"test".to_vec())
        .unwrap();
    let salt = [1u8; 32];
    let hash = Voting::compute_vote_hash_static(1, salt);

    commit(&mut contract, accounts(1), 100, request_id, hash, 1);
    commit(&mut contract, accounts(2), 900, request_id, Voting::compute_vote_hash_static(0, [2u8; 32]), 1);

    contract.advance_to_reveal(request_id, DEFAULT_COMMIT_DURATION + 2).unwrap();
    contract.reveal_vote(accounts(1), request_id, 1, salt, DEFAULT_COMMIT_DURATION + 3).unwrap();

    let outcome = contract
        .resolve_price(request_id, DEFAULT_COMMIT_DURATION + DEFAULT_REVEAL_DURATION + 10)
        .unwrap()
        .outcome;
    assert_eq!(outcome, ResolvePriceOutcome::EmergencyRequired);
    let req = contract.get_request(request_id).unwrap();
    assert!(req.emergency_required);

    let emergency = contract
        .emergency_resolve_price(accounts(0), request_id, 0, "Low participation".to_string())
        .unwrap();
    assert_eq!(emergency, 0);
    assert!(contract.has_price(request_id));
}

fn vote(price: i128, stake: u128, voter: &str) -> RevealedVote {
    RevealedVote { price, stake, voter: voter.to_string() }
}

#[test]
fn median_of_three_votes_is_the_crossing_price() {
    let votes = vec![vote(0, 100, "a"), vote(1, 400, "b"), vote(1, 500, "c")];
    assert_eq!(stake_weighted_median(&votes), 1);
}

#[test]
fn median_ignores_commit_order() {
    let votes = vec![vote(1, 500, "c"), vote(0, 100, "a"), vote(1, 400, "b")];
    assert_eq!(stake_weighted_median(&votes), 1);
}

#[test]
fn median_exact_half_goes_to_the_lower_price() {
    // total 200, midpoint 100: the running stake reaches it at price 5.
    let votes = vec![vote(9, 100, "b"), vote(5, 100, "a")];
    assert_eq!(stake_weighted_median(&votes), 5);
    // total 201, midpoint 101: price 5 holds only 100, so 9 wins.
    let votes = vec![vote(9, 101, "b"), vote(5, 100, "a")];
    assert_eq!(stake_weighted_median(&votes), 9);
}

#[test]
fn median_of_a_single_vote() {
    let votes = vec![vote(-7, 1, "a")];
    assert_eq!(stake_weighted_median(&votes), -7);
}

#[test]
fn basis_point_shares_are_exact() {
    assert_eq!(bps_share(1000, 5000), 500);
    assert_eq!(bps_share(999, 5000), 499);
    assert_eq!(bps_share(u128::MAX, 10_000), u128::MAX);
    assert_eq!(bps_share(u128::MAX, 5_000), u128::MAX / 2);
    assert_eq!(bps_share(12345, 0), 0);
}

fn entry(voter: &str, stake: u128, revealed_price: Option<i128>) -> VoterEntry {
    VoterEntry {
        voter: voter.to_string(),
        commitment: VoteCommitment {
            commit_hash: [0u8; 32],
            staked_amount: stake,
            revealed: revealed_price.is_some(),
            revealed_price,
        },
    }
}

#[test]
fn slashed_stake_goes_to_winners_and_treasury() {
    let voters = vec![
        entry("a", 100, Some(0)),
        entry("b", 400, Some(1)),
        entry("c", 500, Some(1)),
        entry("d", 33, None),
    ];
    let d = distribute_rewards_and_slashing(&voters, 1, 5_000);
    assert_eq!(d.winner_stake, 900);
    assert_eq!(d.total_slashed, 133);
    assert_eq!(d.treasury_cut, 66);
    assert_eq!(d.reward_pool, 67);
    assert_eq!(d.payouts.len(), 2);
    assert_eq!(d.payouts[0].recipient, "b");
    assert_eq!(d.payouts[0].amount, 400 + 67 * 400 / 900);
    assert_eq!(d.payouts[1].recipient, "c");
    assert_eq!(d.payouts[1].amount, 500 + 67 * 500 / 900);
    let paid: u128 = d.payouts.iter().map(|p| p.amount).sum();
    let total = 100 + 400 + 500 + 33;
    let dust = total - (paid + d.treasury_cut);
    assert!(dust <= 2);
    assert_eq!(dust, 1);
}

#[test]
fn without_slashing_winners_get_their_stake_back() {
    let voters = vec![entry("a", 10, Some(3)), entry("b", 20, Some(3))];
    let d = distribute_rewards_and_slashing(&voters, 3, 5_000);
    assert_eq!(d.total_slashed, 0);
    assert_eq!(d.treasury_cut, 0);
    assert_eq!(d.payouts.len(), 2);
    assert_eq!(d.payouts[0].amount, 10);
    assert_eq!(d.payouts[1].amount, 20);
}

#[test]
fn resolution_hands_out_stake_when_token_and_treasury_are_set() {
    let mut contract = setup_contract();
    contract.set_min_participation_rate(accounts(0), 0).unwrap();
    let request_id = contract
        .request_price(accounts(0), 0, "YES_OR_NO_QUERY".to_string(), 1000, b"test".to_vec())
        .unwrap();
    commit(&mut contract, accounts(1), 100, request_id, Voting::compute_vote_hash_static(0, [1u8; 32]), 1);
    commit(&mut contract, accounts(2), 400, request_id, Voting::compute_vote_hash_static(1, [2u8; 32]), 1);
    commit(&mut contract, accounts(3), 500, request_id, Voting::compute_vote_hash_static(1, [3u8; 32]), 1);
    contract.advance_to_reveal(request_id, DEFAULT_COMMIT_DURATION).unwrap();
    contract.reveal_vote(accounts(1), request_id, 0, [1u8; 32], DEFAULT_COMMIT_DURATION + 1).unwrap();
    contract.reveal_vote(accounts(2), request_id, 1, [2u8; 32], DEFAULT_COMMIT_DURATION + 1).unwrap();
    contract.reveal_vote(accounts(3), request_id, 1, [3u8; 32], DEFAULT_COMMIT_DURATION + 1).unwrap();
    let res = contract
        .resolve_price(request_id, 2 * DEFAULT_COMMIT_DURATION)
        .unwrap();
    let d = res.distribution.unwrap();
    assert_eq!(d.total_slashed, 100);
    assert_eq!(d.treasury_cut, 50);
    assert_eq!(d.payouts[0].amount, 400 + 50 * 400 / 900);
    assert_eq!(d.payouts[1].amount, 500 + 50 * 500 / 900);
    assert_eq!(contract.get_price(request_id), Some(1));
}

#[test]
fn extensions_are_granted_then_emergency_is_required() {
    let mut contract = setup_contract();
    contract.set_min_participation_rate(accounts(0), 9_000).unwrap();
    contract.set_max_low_participation_extensions(accounts(0), 2).unwrap();
    let request_id = contract
        .request_price(accounts(0), 0, "Q".to_string(), 1, b"x".to_vec())
        .unwrap();
    commit(&mut contract, accounts(1), 100, request_id, Voting::compute_vote_hash_static(1, [1u8; 32]), 1);
    commit(&mut contract, accounts(2), 900, request_id, Voting::compute_vote_hash_static(1, [2u8; 32]), 1);
    contract.advance_to_reveal(request_id, DEFAULT_COMMIT_DURATION).unwrap();
    contract.reveal_vote(accounts(1), request_id, 1, [1u8; 32], DEFAULT_COMMIT_DURATION + 1).unwrap();
    let mut now = DEFAULT_COMMIT_DURATION;
    for attempt in 1..=3u8 {
        now += DEFAULT_REVEAL_DURATION;
        let outcome = contract.resolve_price(request_id, now).unwrap().outcome;
        let req = contract.get_request(request_id).unwrap();
        if attempt <= 2 {
            assert_eq!(outcome, ResolvePriceOutcome::RevealExtended);
            assert_eq!(req.low_participation_extensions, attempt);
            assert_eq!(req.reveal_start_time, now);
            assert!(!req.emergency_required);
        } else {
            assert_eq!(outcome, ResolvePriceOutcome::EmergencyRequired);
            assert!(req.emergency_required);
        }
        assert_eq!(req.phase, VotingPhase::Reveal);
        assert_eq!(req.resolved_price, None);
    }
}

#[test]
fn double_commit_and_double_reveal_are_refused() {
    let mut contract = setup_contract();
    let request_id = contract
        .request_price(accounts(0), 0, "Q".to_string(), 1, b"x".to_vec())
        .unwrap();
    let hash = Voting::compute_vote_hash_static(5, [4u8; 32]);
    commit(&mut contract, accounts(1), 10, request_id, hash, 1);
    let again = contract.ft_on_transfer(
        account(TOKEN_ACCOUNT),
        accounts(1),
        10,
        FtOnTransferMsg::CommitVote { request_id, commit_hash: hash },
        2,
    );
    assert_eq!(again, Err(VotingError::AlreadyCommitted));
    assert_eq!(contract.get_total_committed_stake(request_id), 10);
    contract.advance_to_reveal(request_id, DEFAULT_COMMIT_DURATION).unwrap();
    assert_eq!(
        contract.reveal_vote(accounts(1), request_id, 6, [4u8; 32], DEFAULT_COMMIT_DURATION),
        Err(VotingError::HashMismatch)
    );
    assert_eq!(
        contract.reveal_vote(accounts(2), request_id, 5, [4u8; 32], DEFAULT_COMMIT_DURATION),
        Err(VotingError::NoCommitment)
    );
    contract.reveal_vote(accounts(1), request_id, 5, [4u8; 32], DEFAULT_COMMIT_DURATION).unwrap();
    assert_eq!(
        contract.reveal_vote(accounts(1), request_id, 5, [4u8; 32], DEFAULT_COMMIT_DURATION),
        Err(VotingError::AlreadyRevealed)
    );
    assert_eq!(contract.get_request(request_id).unwrap().revealed_stake, 10);
}

#[test]
fn voting_errors_for_each_guard() {
    let mut contract = setup_contract();
    assert_eq!(contract.commit_vote([0u8; 32], [0u8; 32], 1), Err(VotingError::DirectCommitDisabled));
    let unknown = [9u8; 32];
    assert_eq!(contract.advance_to_reveal(unknown, 0), Err(VotingError::RequestNotFound));
    let request_id = contract
        .request_price(accounts(0), 0, "Q".to_string(), 1, b"x".to_vec())
        .unwrap();
    let zero = contract.ft_on_transfer(
        account(TOKEN_ACCOUNT),
        accounts(1),
        0,
        FtOnTransferMsg::CommitVote { request_id, commit_hash: [0u8; 32] },
        1,
    );
    assert_eq!(zero, Err(VotingError::ZeroStake));
    assert_eq!(contract.reveal_vote(accounts(1), request_id, 1, [0u8; 32], 1), Err(VotingError::NotInRevealPhase));
    assert_eq!(contract.resolve_price(request_id, 1).err(), Some(VotingError::NotInRevealPhase));
    contract.advance_to_reveal(request_id, DEFAULT_COMMIT_DURATION).unwrap();
    let late = contract.ft_on_transfer(
        account(TOKEN_ACCOUNT),
        accounts(1),
        5,
        FtOnTransferMsg::CommitVote { request_id, commit_hash: [0u8; 32] },
        DEFAULT_COMMIT_DURATION,
    );
    assert_eq!(late, Err(VotingError::NotInCommitPhase));
    assert_eq!(contract.resolve_price(request_id, DEFAULT_COMMIT_DURATION + 1).err(), Some(VotingError::RevealPhaseNotEnded));
    assert_eq!(
        contract.reveal_vote(accounts(1), request_id, 1, [0u8; 32], 2 * DEFAULT_COMMIT_DURATION),
        Err(VotingError::RevealPhaseEnded)
    );
    assert_eq!(
        contract.resolve_price(request_id, 2 * DEFAULT_COMMIT_DURATION).err(),
        Some(VotingError::NoCommittedStake)
    );
    assert_eq!(
        contract.emergency_resolve_price(accounts(0), request_id, 1, "r".to_string()),
        Err(VotingError::EmergencyNotEnabled)
    );
    assert_eq!(
        contract.emergency_resolve_price(accounts(1), request_id, 1, "r".to_string()),
        Err(VotingError::Unauthorized)
    );
    assert_eq!(contract.set_min_participation_rate(accounts(0), 10_001), Err(VotingError::RateTooHigh));
    assert_eq!(contract.set_slashing_treasury_bps(accounts(0), 10_001), Err(VotingError::BpsTooHigh));
}

#[test]
fn commit_after_the_window_is_refused() {
    let mut contract = setup_contract();
    let request_id = contract
        .request_price(accounts(0), 0, "Q".to_string(), 1, b"x".to_vec())
        .unwrap();
    let r = contract.ft_on_transfer(
        account(TOKEN_ACCOUNT),
        accounts(1),
        5,
        FtOnTransferMsg::CommitVote { request_id, commit_hash: [0u8; 32] },
        DEFAULT_COMMIT_DURATION,
    );
    assert_eq!(r, Err(VotingError::CommitPhaseEnded));
}

#[test]
fn vote_hash_is_sha256_of_price_then_salt() {
    let salt = [0xabu8; 32];
    let mut preimage = (-2i128).to_le_bytes().to_vec();
    preimage.extend_from_slice(&salt);
    let expected = near_sdk::env::sha256_array(&preimage);
    assert_eq!(Voting::compute_vote_hash_static(-2, salt), expected);
    assert_ne!(Voting::compute_vote_hash_static(-2, salt), Voting::compute_vote_hash_static(2, salt));
}

#[test]
fn request_id_is_sha256_of_parameters_and_nonce() {
    let mut contract = Voting::new(accounts(0));
    let id = contract
        .request_price(accounts(0), 0, "Q".to_string(), 7, b"ab".to_vec())
        .unwrap();
    let mut preimage = b"Q".to_vec();
    preimage.extend_from_slice(&7u64.to_le_bytes());
    preimage.extend_from_slice(b"ab");
    preimage.extend_from_slice(&0u64.to_le_bytes());
    assert_eq!(id, near_sdk::env::sha256_array(&preimage));
}

#[test]
fn large_stakes_are_paid_exactly() {
    let voters = vec![entry("loser", 1u128 << 127, Some(0)), entry("winner", 1u128 << 126, Some(1))];
    let d = distribute_rewards_and_slashing(&voters, 1, 0);
    assert_eq!(d.total_slashed, 1u128 << 127);
    assert_eq!(d.treasury_cut, 0);
    assert_eq!(d.payouts.len(), 1);
    assert_eq!(d.payouts[0].amount, 3 * (1u128 << 126));
}

#[test]
fn mul_div_is_exact_without_overflow() {
    assert_eq!(mul_div(u128::MAX, u128::MAX - 1, u128::MAX), u128::MAX - 1);
    assert_eq!(mul_div(1u128 << 127, 1u128 << 126, 1u128 << 126), 1u128 << 127);
    assert_eq!(mul_div(67, 400, 900), 29);
    assert_eq!(mul_div(1000, 0, 7), 0);
    assert_eq!(mul_div(u128::MAX, 2, 3), u128::MAX / 3 * 2);
}

#[test]
fn distribution_transfers_skip_nothing_and_lead_with_the_treasury() {
    let voters = vec![entry("a", 100, Some(0)), entry("b", 400, Some(1)), entry("c", 500, Some(1)), entry("d", 0, Some(1))];
    let d = distribute_rewards_and_slashing(&voters, 1, 5_000);
    let t = d.transfers(&"treasury.near".to_string());
    assert_eq!(t.len(), 3);
    assert_eq!(t[0].recipient, "treasury.near");
    assert_eq!(t[0].amount, 50);
    assert_eq!(t[1].recipient, "b");
    assert_eq!(t[2].recipient, "c");
    let none = distribute_rewards_and_slashing(&vec![entry("a", 10, Some(1))], 1, 5_000);
    let t = none.transfers(&"treasury.near".to_string());
    assert_eq!(t.len(), 1);
    assert_eq!(t[0].amount, 10);
}
