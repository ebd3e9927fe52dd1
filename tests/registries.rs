use nest_oracle::escalation::{
    BaseEscalationManager, EscalationError, FullPolicyEscalationManager,
    WhitelistDisputerEscalationManager,
};
use nest_oracle::oracle::NUMERICAL_TRUE;
use nest_oracle::registries::{AdminError, Finder, IdentifierWhitelist, Registry, SlashingLibrary, Store};

fn accounts(i: usize) -> String {
    ["alice.near", "bob.near", "charlie.near", "danny.near", "eugene.near"][i].to_string()
}

fn or_panic<T>(r: Result<T, AdminError>) -> T {
    match r {
        Ok(v) => v,
        Err(e) => panic!("{}", e.message()),
    }
}

#[test]
fn finder_test_new() {
    let contract = Finder::new(accounts(0));
    assert_eq!(contract.get_owner(), accounts(0));
}

#[test]
fn test_change_implementation_address() {
    let mut contract = Finder::new(accounts(0));
    contract.change_implementation_address(accounts(0), "Oracle".to_string(), accounts(1)).unwrap();
    assert!(contract.has_implementation("Oracle".to_string()));
    assert_eq!(contract.get_implementation_address("Oracle".to_string()).unwrap(), accounts(1));
}

#[test]
fn test_update_implementation() {
    let mut contract = Finder::new(accounts(0));
    contract.change_implementation_address(accounts(0), "Oracle".to_string(), accounts(1)).unwrap();
    contract.change_implementation_address(accounts(0), "Oracle".to_string(), accounts(2)).unwrap();
    assert_eq!(contract.get_implementation_address("Oracle".to_string()).unwrap(), accounts(2));
}

#[test]
fn test_remove_implementation() {
    let mut contract = Finder::new(accounts(0));
    contract.change_implementation_address(accounts(0), "Oracle".to_string(), accounts(1)).unwrap();
    assert!(contract.has_implementation("Oracle".to_string()));
    contract.remove_implementation(accounts(0), "Oracle".to_string()).unwrap();
    assert!(!contract.has_implementation("Oracle".to_string()));
}

#[test]
#[should_panic(expected = "Implementation not found")]
fn test_get_unregistered_implementation() {
    let contract = Finder::new(accounts(0));
    or_panic(contract.get_implementation_address("Oracle".to_string()));
}

#[test]
#[should_panic(expected = "Only owner can call this method")]
fn test_change_implementation_unauthorized() {
    let mut contract = Finder::new(accounts(0));
    or_panic(contract.change_implementation_address(accounts(1), "Oracle".to_string(), accounts(2)));
}

#[test]
fn finder_test_transfer_ownership() {
    let mut contract = Finder::new(accounts(0));
    contract.set_owner(accounts(0), accounts(1)).unwrap();
    assert_eq!(contract.get_owner(), accounts(1));
    contract.change_implementation_address(accounts(1), "Oracle".to_string(), accounts(2)).unwrap();
    assert_eq!(contract.get_implementation_address("Oracle".to_string()).unwrap(), accounts(2));
}

#[test]
fn test_multiple_interfaces() {
    let mut contract = Finder::new(accounts(0));
    contract.change_implementation_address(accounts(0), "Oracle".to_string(), accounts(1)).unwrap();
    contract.change_implementation_address(accounts(0), "Store".to_string(), accounts(2)).unwrap();
    contract.change_implementation_address(accounts(0), "IdentifierWhitelist".to_string(), accounts(3)).unwrap();
    assert_eq!(contract.get_implementation_address("Oracle".to_string()).unwrap(), accounts(1));
    assert_eq!(contract.get_implementation_address("Store".to_string()).unwrap(), accounts(2));
    assert_eq!(contract.get_implementation_address("IdentifierWhitelist".to_string()).unwrap(), accounts(3));
}

#[test]
fn whitelist_test_new() {
    let contract = IdentifierWhitelist::new(accounts(0));
    assert_eq!(contract.get_owner(), accounts(0));
}

#[test]
fn test_add_supported_identifier() {
    let mut contract = IdentifierWhitelist::new(accounts(0));
    assert!(!contract.is_identifier_supported("YES_OR_NO_QUERY".to_string()));
    let added = contract.add_supported_identifier(accounts(0), "YES_OR_NO_QUERY".to_string()).unwrap();
    assert_eq!(added.unwrap().identifier, "YES_OR_NO_QUERY");
    assert!(contract.is_identifier_supported("YES_OR_NO_QUERY".to_string()));
}

#[test]
fn test_remove_supported_identifier() {
    let mut contract = IdentifierWhitelist::new(accounts(0));
    contract.add_supported_identifier(accounts(0), "YES_OR_NO_QUERY".to_string()).unwrap();
    assert!(contract.is_identifier_supported("YES_OR_NO_QUERY".to_string()));
    let removed = contract.remove_supported_identifier(accounts(0), "YES_OR_NO_QUERY".to_string()).unwrap();
    assert!(removed.is_some());
    assert!(!contract.is_identifier_supported("YES_OR_NO_QUERY".to_string()));
}

#[test]
fn test_multiple_identifiers() {
    let mut contract = IdentifierWhitelist::new(accounts(0));
    contract.add_supported_identifier(accounts(0), "YES_OR_NO_QUERY".to_string()).unwrap();
    contract.add_supported_identifier(accounts(0), "NUMERICAL".to_string()).unwrap();
    contract.add_supported_identifier(accounts(0), "ETH/USD".to_string()).unwrap();
    assert!(contract.is_identifier_supported("YES_OR_NO_QUERY".to_string()));
    assert!(contract.is_identifier_supported("NUMERICAL".to_string()));
    assert!(contract.is_identifier_supported("ETH/USD".to_string()));
    assert!(!contract.is_identifier_supported("UNKNOWN".to_string()));
}

#[test]
fn test_add_duplicate_identifier() {
    let mut contract = IdentifierWhitelist::new(accounts(0));
    assert!(contract.add_supported_identifier(accounts(0), "YES_OR_NO_QUERY".to_string()).unwrap().is_some());
    assert!(contract.add_supported_identifier(accounts(0), "YES_OR_NO_QUERY".to_string()).unwrap().is_none());
    assert!(contract.is_identifier_supported("YES_OR_NO_QUERY".to_string()));
}

#[test]
fn test_remove_nonexistent_identifier() {
    let mut contract = IdentifierWhitelist::new(accounts(0));
    let removed = contract.remove_supported_identifier(accounts(0), "NONEXISTENT".to_string()).unwrap();
    assert!(removed.is_none());
}

#[test]
#[should_panic(expected = "Only owner can call this method")]
fn test_add_identifier_unauthorized() {
    let mut contract = IdentifierWhitelist::new(accounts(0));
    or_panic(contract.add_supported_identifier(accounts(1), "YES_OR_NO_QUERY".to_string()));
}

#[test]
#[should_panic(expected = "Only owner can call this method")]
fn test_remove_identifier_unauthorized() {
    let mut contract = IdentifierWhitelist::new(accounts(0));
    contract.add_supported_identifier(accounts(0), "YES_OR_NO_QUERY".to_string()).unwrap();
    or_panic(contract.remove_supported_identifier(accounts(1), "YES_OR_NO_QUERY".to_string()));
}

#[test]
#[should_panic(expected = "Identifier cannot be empty")]
fn test_add_empty_identifier() {
    let mut contract = IdentifierWhitelist::new(accounts(0));
    or_panic(contract.add_supported_identifier(accounts(0), "".to_string()));
}

#[test]
fn whitelist_test_transfer_ownership() {
    let mut contract = IdentifierWhitelist::new(accounts(0));
    contract.set_owner(accounts(0), accounts(1)).unwrap();
    assert_eq!(contract.get_owner(), accounts(1));
    contract.add_supported_identifier(accounts(1), "YES_OR_NO_QUERY".to_string()).unwrap();
    assert!(contract.is_identifier_supported("YES_OR_NO_QUERY".to_string()));
}

#[test]
fn registry_test_new() {
    let contract = Registry::new(accounts(0));
    assert_eq!(contract.get_owner(), accounts(0));
}

#[test]
fn test_register_contract() {
    let mut contract = Registry::new(accounts(0));
    assert!(!contract.is_contract_registered(accounts(1)));
    let rec = contract.register_contract(accounts(0), accounts(1)).unwrap().unwrap();
    assert_eq!(rec.contract_address, accounts(1));
    assert_eq!(rec.creator, accounts(0));
    assert!(contract.is_contract_registered(accounts(1)));
}

#[test]
fn test_unregister_contract() {
    let mut contract = Registry::new(accounts(0));
    contract.register_contract(accounts(0), accounts(1)).unwrap();
    assert!(contract.is_contract_registered(accounts(1)));
    contract.unregister_contract(accounts(0), accounts(1)).unwrap();
    assert!(!contract.is_contract_registered(accounts(1)));
}

#[test]
fn test_multiple_contracts() {
    let mut contract = Registry::new(accounts(0));
    contract.register_contract(accounts(0), accounts(1)).unwrap();
    contract.register_contract(accounts(0), accounts(2)).unwrap();
    contract.register_contract(accounts(0), accounts(3)).unwrap();
    assert!(contract.is_contract_registered(accounts(1)));
    assert!(contract.is_contract_registered(accounts(2)));
    assert!(contract.is_contract_registered(accounts(3)));
    assert!(!contract.is_contract_registered(accounts(4)));
}

#[test]
fn test_register_duplicate_contract() {
    let mut contract = Registry::new(accounts(0));
    assert!(contract.register_contract(accounts(0), accounts(1)).unwrap().is_some());
    assert!(contract.register_contract(accounts(0), accounts(1)).unwrap().is_none());
    assert!(contract.is_contract_registered(accounts(1)));
}

#[test]
fn test_unregister_nonexistent_contract() {
    let mut contract = Registry::new(accounts(0));
    assert!(contract.unregister_contract(accounts(0), accounts(1)).unwrap().is_none());
}

#[test]
#[should_panic(expected = "Only owner can call this method")]
fn test_register_unauthorized() {
    let mut contract = Registry::new(accounts(0));
    or_panic(contract.register_contract(accounts(1), accounts(2)));
}

#[test]
#[should_panic(expected = "Only owner can call this method")]
fn test_unregister_unauthorized() {
    let mut contract = Registry::new(accounts(0));
    contract.register_contract(accounts(0), accounts(1)).unwrap();
    or_panic(contract.unregister_contract(accounts(1), accounts(1)));
}

#[test]
fn registry_test_transfer_ownership() {
    let mut contract = Registry::new(accounts(0));
    contract.set_owner(accounts(0), accounts(1)).unwrap();
    assert_eq!(contract.get_owner(), accounts(1));
    contract.register_contract(accounts(1), accounts(2)).unwrap();
    assert!(contract.is_contract_registered(accounts(2)));
}

#[test]
fn test_re_register_after_unregister() {
    let mut contract = Registry::new(accounts(0));
    contract.register_contract(accounts(0), accounts(1)).unwrap();
    assert!(contract.is_contract_registered(accounts(1)));
    contract.unregister_contract(accounts(0), accounts(1)).unwrap();
    assert!(!contract.is_contract_registered(accounts(1)));
    contract.register_contract(accounts(0), accounts(1)).unwrap();
    assert!(contract.is_contract_registered(accounts(1)));
}

#[test]
fn slashing_test_new() {
    let contract = SlashingLibrary::new(accounts(0), 1000).unwrap();
    assert_eq!(contract.get_owner(), accounts(0));
    assert_eq!(contract.get_base_slashing_rate(), 1000);
}

#[test]
#[should_panic(expected = "Slashing rate cannot exceed 100%")]
fn test_new_rate_too_high() {
    or_panic(SlashingLibrary::new(accounts(0), 10001));
}

#[test]
fn test_calculate_slashing_10_percent() {
    let contract = SlashingLibrary::new(accounts(0), 1000).unwrap();
    assert_eq!(contract.calculate_slashing(1000), 100);
}

#[test]
fn test_calculate_slashing_50_percent() {
    let contract = SlashingLibrary::new(accounts(0), 5000).unwrap();
    assert_eq!(contract.calculate_slashing(1000), 500);
}

#[test]
fn test_calculate_slashing_100_percent() {
    let contract = SlashingLibrary::new(accounts(0), 10000).unwrap();
    assert_eq!(contract.calculate_slashing(1000), 1000);
}

#[test]
fn test_calculate_slashing_zero() {
    let contract = SlashingLibrary::new(accounts(0), 1000).unwrap();
    assert_eq!(contract.calculate_slashing(0), 0);
}

#[test]
fn test_calculate_slashing_large_amount() {
    let contract = SlashingLibrary::new(accounts(0), 1000).unwrap();
    let large_stake = 1_000_000_000_000_000_000_000_000u128;
    assert_eq!(contract.calculate_slashing(large_stake), large_stake / 10);
}

#[test]
fn test_set_base_slashing_rate() {
    let mut contract = SlashingLibrary::new(accounts(0), 1000).unwrap();
    contract.set_base_slashing_rate(accounts(0), 2000).unwrap();
    assert_eq!(contract.get_base_slashing_rate(), 2000);
    assert_eq!(contract.calculate_slashing(1000), 200);
}

#[test]
#[should_panic(expected = "Slashing rate cannot exceed 100%")]
fn test_set_rate_too_high() {
    let mut contract = SlashingLibrary::new(accounts(0), 1000).unwrap();
    or_panic(contract.set_base_slashing_rate(accounts(0), 10001));
}

#[test]
#[should_panic(expected = "Only owner can call this method")]
fn test_set_rate_unauthorized() {
    let mut contract = SlashingLibrary::new(accounts(0), 1000).unwrap();
    or_panic(contract.set_base_slashing_rate(accounts(1), 2000));
}

#[test]
fn test_calculate_slashing_with_context() {
    let contract = SlashingLibrary::new(accounts(0), 1000).unwrap();
    assert_eq!(contract.calculate_slashing_with_context(1000, 9000, 10000), 100);
}

#[test]
fn slashing_test_transfer_ownership() {
    let mut contract = SlashingLibrary::new(accounts(0), 1000).unwrap();
    contract.set_owner(accounts(0), accounts(1)).unwrap();
    assert_eq!(contract.get_owner(), accounts(1));
    contract.set_base_slashing_rate(accounts(1), 2000).unwrap();
    assert_eq!(contract.get_base_slashing_rate(), 2000);
}

#[test]
fn test_zero_slashing_rate() {
    let contract = SlashingLibrary::new(accounts(0), 0).unwrap();
    assert_eq!(contract.calculate_slashing(1000), 0);
}

#[test]
fn slashing_of_the_largest_stake_does_not_overflow() {
    let contract = SlashingLibrary::new(accounts(0), 9999).unwrap();
    assert_eq!(contract.calculate_slashing(u128::MAX), u128::MAX / 10000 * 9999 + (u128::MAX % 10000) * 9999 / 10000);
}

#[test]
fn store_test_new() {
    let contract = Store::new(accounts(0), accounts(1));
    assert_eq!(contract.get_owner(), accounts(0));
    assert_eq!(contract.get_withdrawer(), accounts(1));
}

#[test]
fn test_set_final_fee() {
    let mut contract = Store::new(accounts(0), accounts(1));
    let rec = contract.set_final_fee(accounts(0), accounts(2), 1000).unwrap();
    assert_eq!(rec.fee, 1000);
    assert!(contract.has_final_fee(accounts(2)));
    assert_eq!(contract.get_final_fee(accounts(2)), 1000);
}

#[test]
fn test_get_unset_fee_returns_zero() {
    let contract = Store::new(accounts(0), accounts(1));
    assert_eq!(contract.get_final_fee(accounts(2)), 0);
    assert!(!contract.has_final_fee(accounts(2)));
}

#[test]
fn test_remove_final_fee() {
    let mut contract = Store::new(accounts(0), accounts(1));
    contract.set_final_fee(accounts(0), accounts(2), 1000).unwrap();
    assert!(contract.has_final_fee(accounts(2)));
    contract.remove_final_fee(accounts(0), accounts(2)).unwrap();
    assert!(!contract.has_final_fee(accounts(2)));
    assert_eq!(contract.get_final_fee(accounts(2)), 0);
}

#[test]
fn test_update_final_fee() {
    let mut contract = Store::new(accounts(0), accounts(1));
    contract.set_final_fee(accounts(0), accounts(2), 1000).unwrap();
    assert_eq!(contract.get_final_fee(accounts(2)), 1000);
    contract.set_final_fee(accounts(0), accounts(2), 2000).unwrap();
    assert_eq!(contract.get_final_fee(accounts(2)), 2000);
}

#[test]
#[should_panic(expected = "Only owner can call this method")]
fn test_set_final_fee_unauthorized() {
    let mut contract = Store::new(accounts(0), accounts(1));
    or_panic(contract.set_final_fee(accounts(1), accounts(3), 1000));
}

#[test]
fn test_multiple_currencies() {
    let mut contract = Store::new(accounts(0), accounts(1));
    contract.set_final_fee(accounts(0), accounts(2), 100_000_000).unwrap();
    contract.set_final_fee(accounts(0), accounts(3), 100_000_000_000_000_000_000).unwrap();
    contract.set_final_fee(accounts(0), accounts(4), 5_000_000_000_000_000_000_000_000).unwrap();
    assert_eq!(contract.get_final_fee(accounts(2)), 100_000_000);
    assert_eq!(contract.get_final_fee(accounts(3)), 100_000_000_000_000_000_000);
    assert_eq!(contract.get_final_fee(accounts(4)), 5_000_000_000_000_000_000_000_000);
}

#[test]
fn test_change_withdrawer() {
    let mut contract = Store::new(accounts(0), accounts(1));
    contract.set_withdrawer(accounts(0), accounts(2)).unwrap();
    assert_eq!(contract.get_withdrawer(), accounts(2));
}

#[test]
fn store_test_transfer_ownership() {
    let mut contract = Store::new(accounts(0), accounts(1));
    contract.set_owner(accounts(0), accounts(2)).unwrap();
    assert_eq!(contract.get_owner(), accounts(2));
    contract.set_final_fee(accounts(2), accounts(3), 500).unwrap();
    assert_eq!(contract.get_final_fee(accounts(3)), 500);
}

#[test]
fn store_withdrawals_are_withdrawer_only() {
    let contract = Store::new(accounts(0), accounts(1));
    assert_eq!(contract.withdraw_near(accounts(0), 5, 10).err(), Some(AdminError::NotWithdrawer));
    assert_eq!(contract.withdraw_near(accounts(1), 0, 10).err(), Some(AdminError::AmountZero));
    assert_eq!(contract.withdraw_near(accounts(1), 11, 10).err(), Some(AdminError::InsufficientBalance));
    let w = contract.withdraw_near(accounts(1), 10, 10).unwrap();
    assert_eq!(w.receiver_id, accounts(1));
    assert_eq!(w.amount, 10);
    assert!(w.token.is_none());
    let t = contract.withdraw_token(accounts(1), "usdc.near".to_string(), 3).unwrap();
    assert_eq!(t.token, Some("usdc.near".to_string()));
}

#[test]
fn base_manager_allows_everything_and_arbitrates_nothing() {
    let mut m = BaseEscalationManager::new("oracle.near".to_string());
    let p = m.get_assertion_policy([0u8; 32]);
    assert!(!p.block_assertion && !p.arbitrate_via_escalation_manager && !p.discard_oracle && !p.validate_disputers);
    assert!(m.is_dispute_allowed([0u8; 32], accounts(1)));
    assert_eq!(m.get_price([0u8; 32], 1, vec![]), Err(EscalationError::PriceNotImplemented));
    assert_eq!(m.request_price(accounts(1), [0u8; 32], 1, vec![]).err(), Some(EscalationError::OnlyOracle));
    let rec = m.request_price("oracle.near".to_string(), [0xabu8; 32], 7, vec![1, 2, 255]).unwrap();
    assert_eq!(rec.identifier, "ab".repeat(32));
    assert_eq!(rec.ancillary_data, "0102ff");
    assert_eq!(rec.time, 7);
    assert_eq!(m.assertion_disputed_callback(accounts(1), "x".to_string()), Err(EscalationError::OnlyOracle));
    assert_eq!(m.assertion_resolved_callback("oracle.near".to_string(), "x".to_string(), true), Ok(()));
}

#[test]
fn whitelist_disputer_manager_checks_disputers() {
    let mut m = WhitelistDisputerEscalationManager::new(accounts(0), "oracle.near".to_string());
    assert!(m.get_assertion_policy([0u8; 32]).validate_disputers);
    assert!(!m.is_dispute_allowed([0u8; 32], accounts(2)));
    assert_eq!(m.set_dispute_caller_in_whitelist(accounts(1), accounts(2), true), Err(EscalationError::OnlyOwner));
    m.set_dispute_caller_in_whitelist(accounts(0), accounts(2), true).unwrap();
    assert!(m.is_dispute_allowed([0u8; 32], accounts(2)));
    assert!(m.is_whitelisted(accounts(2)));
    m.set_dispute_caller_in_whitelist(accounts(0), accounts(2), false).unwrap();
    assert!(!m.is_whitelisted(accounts(2)));
    assert_eq!(m.get_price([0u8; 32], 1, vec![]), Err(EscalationError::ArbitrationNotSupported));
}

#[test]
fn full_policy_manager_arbitrates_once() {
    let mut m = FullPolicyEscalationManager::new(accounts(0), "oracle.near".to_string());
    assert_eq!(m.configure(accounts(0), false, true, false, false, false), Err(EscalationError::CannotBlockOnlyByAsserter));
    m.configure(accounts(0), true, true, true, true, false).unwrap();
    assert_eq!(m.get_config(), (true, true, true, true, false));
    assert!(!m.is_asserting_caller_allowed(accounts(1)));
    m.set_whitelisted_asserting_caller(accounts(0), accounts(1), true).unwrap();
    assert!(m.is_asserting_caller_allowed(accounts(1)));
    assert!(!m.is_asserter_allowed(accounts(2)));
    m.set_whitelisted_asserter(accounts(0), accounts(2), true).unwrap();
    assert!(m.is_asserter_allowed(accounts(2)));
    assert!(!m.is_dispute_allowed([0u8; 32], accounts(3)));
    m.set_whitelisted_dispute_caller(accounts(0), accounts(3), true).unwrap();
    assert!(m.is_dispute_allowed([0u8; 32], accounts(3)));
    let policy = m.get_assertion_policy([0u8; 32]);
    assert!(policy.arbitrate_via_escalation_manager && policy.validate_disputers && !policy.block_assertion);

    let ident = [5u8; 32];
    assert_eq!(m.get_price(ident, 9, vec![1]), Err(EscalationError::ResolutionNotSet));
    m.set_arbitration_resolution(accounts(0), ident, 9, vec![1], true).unwrap();
    assert_eq!(m.get_price(ident, 9, vec![1]), Ok(NUMERICAL_TRUE));
    assert_eq!(m.set_arbitration_resolution(accounts(0), ident, 9, vec![1], false), Err(EscalationError::AlreadyResolved));
    m.set_arbitration_resolution(accounts(0), ident, 10, vec![1], false).unwrap();
    assert_eq!(m.get_price(ident, 10, vec![1]), Ok(0));

    let mut preimage = ident.to_vec();
    preimage.extend_from_slice(&9u64.to_le_bytes());
    preimage.push(1);
    let expected: String = near_sdk::env::keccak256_array(&preimage).iter().map(|b| format!("{:02x}", b)).collect();
    assert_eq!(FullPolicyEscalationManager::get_request_id(&ident, 9, &vec![1]), expected);
}
