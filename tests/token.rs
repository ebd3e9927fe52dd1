use nest_oracle::token::{TokenError, VotingToken};

fn accounts(i: usize) -> String {
    ["alice.near", "bob.near", "charlie.near", "danny.near", "eugene.near"][i].to_string()
}

fn or_panic<T>(r: Result<T, TokenError>) -> T {
    match r {
        Ok(v) => v,
        Err(e) => panic!("{}", e.message()),
    }
}

#[test]
fn token_starts_restricted_with_its_owner() {
    let contract = VotingToken::new(accounts(0));
    assert_eq!(contract.get_owner(), accounts(0));
    assert!(contract.get_transfer_restricted());
    assert_eq!(contract.get_vault_account(), None);
}

#[test]
fn added_minter_may_mint_to_registered_accounts() {
    let mut contract = VotingToken::new(accounts(0));
    contract.add_minter(accounts(0), accounts(1)).unwrap();
    assert!(contract.is_minter(accounts(1)));
    assert_eq!(contract.mint(accounts(1), 500, true), Ok(()));
    assert_eq!(contract.mint(accounts(1), 0, true), Err(TokenError::AmountZero));
    contract.remove_minter(accounts(0), accounts(1)).unwrap();
    assert_eq!(contract.mint(accounts(1), 500, true), Err(TokenError::NotMinter));
}

#[test]
#[should_panic(expected = "Account must be registered via storage_deposit before mint")]
fn test_mint_requires_registration() {
    let mut contract = VotingToken::new(accounts(0));
    contract.add_minter(accounts(0), accounts(1)).unwrap();
    or_panic(contract.mint(accounts(1), 500, false));
}

#[test]
#[should_panic(expected = "Only minters can call this method")]
fn test_mint_unauthorized() {
    let contract = VotingToken::new(accounts(0));
    or_panic(contract.mint(accounts(1), 500, true));
}

#[test]
fn burner_may_burn() {
    let mut contract = VotingToken::new(accounts(0));
    assert_eq!(contract.burn(accounts(0), 300), Err(TokenError::NotBurner));
    contract.add_burner(accounts(0), accounts(0)).unwrap();
    assert_eq!(contract.burn(accounts(0), 300), Ok(()));
    assert_eq!(contract.burn_from(accounts(0), accounts(2), 300), Ok(()));
    contract.remove_burner(accounts(0), accounts(0)).unwrap();
    assert!(!contract.is_burner(accounts(0)));
}

#[test]
fn test_set_vault_grants_roles() {
    let mut contract = VotingToken::new(accounts(0));
    contract.set_vault_account(accounts(0), Some(accounts(3))).unwrap();
    assert_eq!(contract.get_vault_account(), Some(accounts(3)));
    assert!(contract.is_minter(accounts(3)));
    assert!(contract.is_burner(accounts(3)));
    assert!(contract.is_transfer_router(accounts(3)));
}

#[test]
fn replacing_the_vault_moves_its_roles() {
    let mut contract = VotingToken::new(accounts(0));
    contract.set_vault_account(accounts(0), Some(accounts(3))).unwrap();
    assert_eq!(contract.remove_transfer_router(accounts(0), accounts(3)), Err(TokenError::VaultRouteProtected));
    contract.set_vault_account(accounts(0), Some(accounts(4))).unwrap();
    assert!(!contract.is_minter(accounts(3)));
    assert!(!contract.is_transfer_router(accounts(3)));
    assert!(contract.is_burner(accounts(4)));
    contract.set_vault_account(accounts(0), None).unwrap();
    assert!(!contract.is_minter(accounts(4)));
    assert_eq!(contract.get_vault_account(), None);
}

#[test]
#[should_panic(expected = "Transfer blocked: restricted to protocol routes (sender or receiver must be allowlisted)")]
fn test_wallet_to_wallet_transfer_blocked_when_restricted() {
    let contract = VotingToken::new(accounts(0));
    or_panic(contract.assert_transfer_allowed(&accounts(0), &accounts(1)));
}

#[test]
fn routes_allow_transfers_while_restricted() {
    let mut contract = VotingToken::new(accounts(0));
    contract.add_transfer_router(accounts(0), accounts(2)).unwrap();
    assert_eq!(contract.assert_transfer_allowed(&accounts(0), &accounts(2)), Ok(()));
    assert_eq!(contract.assert_transfer_allowed(&accounts(2), &accounts(3)), Ok(()));
    assert_eq!(contract.assert_transfer_allowed(&accounts(1), &accounts(3)), Err(TokenError::TransferBlocked));
    contract.set_transfer_restricted(accounts(0), false).unwrap();
    assert_eq!(contract.assert_transfer_allowed(&accounts(1), &accounts(3)), Ok(()));
}

#[test]
fn token_test_transfer_ownership() {
    let mut contract = VotingToken::new(accounts(0));
    contract.set_owner(accounts(0), accounts(1)).unwrap();
    assert_eq!(contract.get_owner(), accounts(1));
    assert_eq!(contract.add_minter(accounts(0), accounts(2)), Err(TokenError::Unauthorized));
    contract.add_minter(accounts(1), accounts(2)).unwrap();
    assert!(contract.is_minter(accounts(2)));
}

// The balance checks of these cases belong to the host's fungible-token
// ledger; what the library decides is who may mint, burn and move tokens.

#[test]
fn test_add_minter_and_mint() {
    let mut contract = VotingToken::new(accounts(0));
    contract.add_minter(accounts(0), accounts(1)).unwrap();
    assert!(contract.is_minter(accounts(1)));
    // accounts(2) registered via storage_deposit; accounts(1) mints 500 to it.
    assert_eq!(contract.mint(accounts(1), 500, true), Ok(()));
}

#[test]
fn test_burn() {
    let mut contract = VotingToken::new(accounts(0));
    contract.add_burner(accounts(0), accounts(0)).unwrap();
    assert_eq!(contract.burn(accounts(0), 300), Ok(()));
}

#[test]
fn test_protocol_route_transfer_allowed_when_restricted() {
    let mut contract = VotingToken::new(accounts(0));
    contract.add_transfer_router(accounts(0), accounts(2)).unwrap();
    assert!(contract.get_transfer_restricted());
    assert_eq!(contract.assert_transfer_allowed(&accounts(0), &accounts(2)), Ok(()));
}

#[test]
fn test_router_sender_transfer_allowed_when_restricted() {
    let mut contract = VotingToken::new(accounts(0));
    contract.add_transfer_router(accounts(0), accounts(2)).unwrap();
    assert_eq!(contract.assert_transfer_allowed(&accounts(0), &accounts(2)), Ok(()));
    assert_eq!(contract.assert_transfer_allowed(&accounts(2), &accounts(3)), Ok(()));
}
