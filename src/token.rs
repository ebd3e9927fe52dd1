//! The voting token's roles and transfer policy. The balances themselves are
//! kept by the host's fungible-token ledger; this module decides who may
//! mint, burn and move tokens.
use vstd::prelude::*;
use crate::keyed::KeyedStore;
use crate::types::{opt_account_view, AccountId};

verus! {

/// Why the voting token rejected a call. A rejected call changes nothing.
#[derive(Clone, Copy, PartialEq, Eq, Debug, Structural)]
pub enum TokenError {
    Unauthorized,
    NotMinter,
    NotBurner,
    AmountZero,
    NotRegistered,
    VaultRouteProtected,
    TransferBlocked,
}

impl TokenError {
    /// A human-readable description of the error.
    pub fn message(&self) -> String {
        let m = match self {
            TokenError::Unauthorized => "Only owner can call this method",
            TokenError::NotMinter => "Only minters can call this method",
            TokenError::NotBurner => "Only burners can call this method",
            TokenError::AmountZero => "Amount must be positive",
            TokenError::NotRegistered => "Account must be registered via storage_deposit before mint",
            TokenError::VaultRouteProtected => "Use set_vault_account(None) to remove vault routing permissions",
            TokenError::TransferBlocked => "Transfer blocked: restricted to protocol routes (sender or receiver must be allowlisted)",
        };
        m.to_owned()
    }
}

/// The roles and the transfer policy of the voting token.
pub struct VotingToken {
    pub owner: AccountId,
    pub minters: KeyedStore<()>,
    pub burners: KeyedStore<()>,
    /// Accounts through which transfers may pass while transfers are restricted.
    pub transfer_whitelist: KeyedStore<()>,
    pub transfer_restricted: bool,
    /// The vault, which holds every role while it is set.
    pub vault_account: Option<AccountId>,
}

/// Every set of `s` other than the one keyed `k` is as in `old`.
pub open spec fn set_same_except(s: KeyedStore<()>, old: KeyedStore<()>, k: Seq<char>) -> bool {
    forall|x: Seq<char>| x != k ==> (#[trigger] s.contains(x)) == old.contains(x)
}

impl VotingToken {
    /// The invariant.
    pub open spec fn wf(&self) -> bool {
        &&& self.minters.wf()
        &&& self.burners.wf()
        &&& self.transfer_whitelist.wf()
    }

    /// `new` is `old` after an owner-only update with result `r`.
    pub open spec fn owner_gate(old: Self, new: Self, caller: AccountId, r: Result<(), TokenError>) -> bool {
        caller@ != old.owner@ ==> r == Err::<(), TokenError>(TokenError::Unauthorized) && new == old
    }

    /// A token owned by `owner`, with no roles given and transfers restricted.
    pub fn new(owner: AccountId) -> (r: Self)
        ensures
            r.wf(),
            r.owner == owner,
            r.transfer_restricted,
            r.vault_account is None,
            forall|k: Seq<char>| !r.minters.contains(k) && !r.burners.contains(k) && !r.transfer_whitelist.contains(k),
    {
        VotingToken {
            owner,
            minters: KeyedStore::new(),
            burners: KeyedStore::new(),
            transfer_whitelist: KeyedStore::new(),
            transfer_restricted: true,
            vault_account: None,
        }
    }

    /// Grants the minter role. Owner only.
    pub fn add_minter(&mut self, caller: AccountId, account_id: AccountId) -> (r: Result<(), TokenError>)
        requires
            old(self).wf(),
        ensures
            final(self).wf(),
            Self::owner_gate(*old(self), *final(self), caller, r),
            caller@ == old(self).owner@ ==> r is Ok && final(self).minters.contains(account_id@)
                && set_same_except(final(self).minters, old(self).minters, account_id@)
                && *final(self) == (VotingToken { minters: final(self).minters, ..*old(self) }),
    {
        if !caller.eq(&self.owner) {
            return Err(TokenError::Unauthorized);
        }
        let _ = self.minters.insert(account_id, ());
        Ok(())
    }

    /// Revokes the minter role. Owner only.
    pub fn remove_minter(&mut self, caller: AccountId, account_id: AccountId) -> (r: Result<(), TokenError>)
        requires
            old(self).wf(),
        ensures
            final(self).wf(),
            Self::owner_gate(*old(self), *final(self), caller, r),
            caller@ == old(self).owner@ ==> r is Ok && !final(self).minters.contains(account_id@)
                && set_same_except(final(self).minters, old(self).minters, account_id@)
                && *final(self) == (VotingToken { minters: final(self).minters, ..*old(self) }),
    {
        if !caller.eq(&self.owner) {
            return Err(TokenError::Unauthorized);
        }
        let _ = self.minters.remove(&account_id);
        Ok(())
    }

    /// Grants the burner role. Owner only.
    pub fn add_burner(&mut self, caller: AccountId, account_id: AccountId) -> (r: Result<(), TokenError>)
        requires
            old(self).wf(),
        ensures
            final(self).wf(),
            Self::owner_gate(*old(self), *final(self), caller, r),
            caller@ == old(self).owner@ ==> r is Ok && final(self).burners.contains(account_id@)
                && set_same_except(final(self).burners, old(self).burners, account_id@)
                && *final(self) == (VotingToken { burners: final(self).burners, ..*old(self) }),
    {
        if !caller.eq(&self.owner) {
            return Err(TokenError::Unauthorized);
        }
        let _ = self.burners.insert(account_id, ());
        Ok(())
    }

    /// Revokes the burner role. Owner only.
    pub fn remove_burner(&mut self, caller: AccountId, account_id: AccountId) -> (r: Result<(), TokenError>)
        requires
            old(self).wf(),
        ensures
            final(self).wf(),
            Self::owner_gate(*old(self), *final(self), caller, r),
            caller@ == old(self).owner@ ==> r is Ok && !final(self).burners.contains(account_id@)
                && set_same_except(final(self).burners, old(self).burners, account_id@)
                && *final(self) == (VotingToken { burners: final(self).burners, ..*old(self) }),
    {
        if !caller.eq(&self.owner) {
            return Err(TokenError::Unauthorized);
        }
        let _ = self.burners.remove(&account_id);
        Ok(())
    }

    /// Moves the vault's roles (minter, burner, transfer route) from the old
    /// vault, if any, to the new one, if any. Owner only.
    pub fn set_vault_account(&mut self, caller: AccountId, vault_account: Option<AccountId>) -> (r: Result<(), TokenError>)
        requires
            old(self).wf(),
        ensures
            final(self).wf(),
            Self::owner_gate(*old(self), *final(self), caller, r),
            caller@ == old(self).owner@ ==> {
                &&& r is Ok
                &&& final(self).vault_account == vault_account
                &&& final(self).owner == old(self).owner
                &&& final(self).transfer_restricted == old(self).transfer_restricted
                &&& vault_account is Some ==> ({
                    let v = vault_account->Some_0@;
                    final(self).minters.contains(v) && final(self).burners.contains(v) && final(self).transfer_whitelist.contains(v)
                })
                &&& old(self).vault_account is Some && opt_account_view(vault_account) != opt_account_view(old(self).vault_account) ==> ({
                    let v = old(self).vault_account->Some_0@;
                    !final(self).minters.contains(v) && !final(self).burners.contains(v) && !final(self).transfer_whitelist.contains(v)
                })
                &&& forall|x: Seq<char>|
                    Some(x) != opt_account_view(vault_account) && Some(x) != opt_account_view(old(self).vault_account) ==> {
                        &&& (#[trigger] final(self).minters.contains(x)) == old(self).minters.contains(x)
                        &&& final(self).burners.contains(x) == old(self).burners.contains(x)
                        &&& final(self).transfer_whitelist.contains(x) == old(self).transfer_whitelist.contains(x)
                    }
            },
    {
        if !caller.eq(&self.owner) {
            return Err(TokenError::Unauthorized);
        }
        let previous = self.vault_account.take();
        if let Some(old_vault) = previous {
            let _ = self.minters.remove(&old_vault);
            let _ = self.burners.remove(&old_vault);
            let _ = self.transfer_whitelist.remove(&old_vault);
        }
        if let Some(new_vault) = vault_account {
            let _ = self.minters.insert(new_vault.clone(), ());
            let _ = self.burners.insert(new_vault.clone(), ());
            let _ = self.transfer_whitelist.insert(new_vault.clone(), ());
            self.vault_account = Some(new_vault);
        }
        Ok(())
    }

    /// Adds a transfer route. Owner only.
    pub fn add_transfer_router(&mut self, caller: AccountId, account_id: AccountId) -> (r: Result<(), TokenError>)
        requires
            old(self).wf(),
        ensures
            final(self).wf(),
            Self::owner_gate(*old(self), *final(self), caller, r),
            caller@ == old(self).owner@ ==> r is Ok && final(self).transfer_whitelist.contains(account_id@)
                && set_same_except(final(self).transfer_whitelist, old(self).transfer_whitelist, account_id@)
                && *final(self) == (VotingToken { transfer_whitelist: final(self).transfer_whitelist, ..*old(self) }),
    {
        if !caller.eq(&self.owner) {
            return Err(TokenError::Unauthorized);
        }
        let _ = self.transfer_whitelist.insert(account_id, ());
        Ok(())
    }

    /// Removes a transfer route; the vault's route goes only with the vault. Owner only.
    pub fn remove_transfer_router(&mut self, caller: AccountId, account_id: AccountId) -> (r: Result<(), TokenError>)
        requires
            old(self).wf(),
        ensures
            final(self).wf(),
            Self::owner_gate(*old(self), *final(self), caller, r),
            caller@ == old(self).owner@ && opt_account_view(old(self).vault_account) == Some(account_id@)
                ==> r == Err::<(), TokenError>(TokenError::VaultRouteProtected) && *final(self) == *old(self),
            caller@ == old(self).owner@ && opt_account_view(old(self).vault_account) != Some(account_id@)
                ==> r is Ok && !final(self).transfer_whitelist.contains(account_id@)
                && set_same_except(final(self).transfer_whitelist, old(self).transfer_whitelist, account_id@)
                && *final(self) == (VotingToken { transfer_whitelist: final(self).transfer_whitelist, ..*old(self) }),
    {
        if !caller.eq(&self.owner) {
            return Err(TokenError::Unauthorized);
        }
        let is_vault = match &self.vault_account {
            Some(v) => v.eq(&account_id),
            None => false,
        };
        if is_vault {
            return Err(TokenError::VaultRouteProtected);
        }
        let _ = self.transfer_whitelist.remove(&account_id);
        Ok(())
    }

    /// Turns the transfer restriction on or off. Owner only.
    pub fn set_transfer_restricted(&mut self, caller: AccountId, restricted: bool) -> (r: Result<(), TokenError>)
        ensures
            Self::owner_gate(*old(self), *final(self), caller, r),
            caller@ == old(self).owner@ ==> r is Ok && *final(self) == (VotingToken { transfer_restricted: restricted, ..*old(self) }),
    {
        if !caller.eq(&self.owner) {
            return Err(TokenError::Unauthorized);
        }
        self.transfer_restricted = restricted;
        Ok(())
    }

    /// Hands ownership over. Owner only.
    pub fn set_owner(&mut self, caller: AccountId, new_owner: AccountId) -> (r: Result<(), TokenError>)
        ensures
            Self::owner_gate(*old(self), *final(self), caller, r),
            caller@ == old(self).owner@ ==> r is Ok && *final(self) == (VotingToken { owner: new_owner, ..*old(self) }),
    {
        if !caller.eq(&self.owner) {
            return Err(TokenError::Unauthorized);
        }
        self.owner = new_owner;
        Ok(())
    }

    /// Whether `caller` may mint `amount` to an account; `registered` says
    /// whether the ledger knows the account.
    pub fn mint(&self, caller: AccountId, amount: u128, registered: bool) -> (r: Result<(), TokenError>)
        requires
            self.wf(),
        ensures
            r == if !self.minters.contains(caller@) {
                Err(TokenError::NotMinter)
            } else if amount == 0 {
                Err(TokenError::AmountZero)
            } else if !registered {
                Err(TokenError::NotRegistered)
            } else {
                Ok::<(), TokenError>(())
            },
    {
        if !self.minters.contains_key(&caller) {
            return Err(TokenError::NotMinter);
        }
        if amount == 0 {
            return Err(TokenError::AmountZero);
        }
        if !registered {
            return Err(TokenError::NotRegistered);
        }
        Ok(())
    }

    /// Whether `caller` may burn `amount` of its own tokens.
    pub fn burn(&self, caller: AccountId, amount: u128) -> (r: Result<(), TokenError>)
        requires
            self.wf(),
        ensures
            r == if !self.burners.contains(caller@) {
                Err(TokenError::NotBurner)
            } else if amount == 0 {
                Err(TokenError::AmountZero)
            } else {
                Ok::<(), TokenError>(())
            },
    {
        if !self.burners.contains_key(&caller) {
            return Err(TokenError::NotBurner);
        }
        if amount == 0 {
            return Err(TokenError::AmountZero);
        }
        Ok(())
    }

    /// Whether `caller` may burn `amount` of another account's tokens.
    pub fn burn_from(&self, caller: AccountId, account_id: AccountId, amount: u128) -> (r: Result<(), TokenError>)
        requires
            self.wf(),
        ensures
            r == if !self.burners.contains(caller@) {
                Err(TokenError::NotBurner)
            } else if amount == 0 {
                Err(TokenError::AmountZero)
            } else {
                Ok::<(), TokenError>(())
            },
    {
        self.burn(caller, amount)
    }

    /// While transfers are restricted, a transfer must start or end at an
    /// allowlisted route.
    pub fn assert_transfer_allowed(&self, sender_id: &AccountId, receiver_id: &AccountId) -> (r: Result<(), TokenError>)
        requires
            self.wf(),
        ensures
            r == if !self.transfer_restricted || self.transfer_whitelist.contains(sender_id@)
                || self.transfer_whitelist.contains(receiver_id@) {
                Ok::<(), TokenError>(())
            } else {
                Err(TokenError::TransferBlocked)
            },
    {
        if !self.transfer_restricted {
            return Ok(());
        }
        if self.transfer_whitelist.contains_key(sender_id) || self.transfer_whitelist.contains_key(receiver_id) {
            Ok(())
        } else {
            Err(TokenError::TransferBlocked)
        }
    }

    /// The owner.
    pub fn get_owner(&self) -> (r: AccountId)
        ensures
            r == self.owner,
    {
        self.owner.clone()
    }

    /// The vault, if set.
    pub fn get_vault_account(&self) -> (r: Option<AccountId>)
        ensures
            r == self.vault_account,
    {
        self.vault_account.clone()
    }

    /// Whether an account may mint.
    pub fn is_minter(&self, account_id: AccountId) -> (r: bool)
        requires
            self.wf(),
        ensures
            r == self.minters.contains(account_id@),
    {
        self.minters.contains_key(&account_id)
    }

    /// Whether an account may burn.
    pub fn is_burner(&self, account_id: AccountId) -> (r: bool)
        requires
            self.wf(),
        ensures
            r == self.burners.contains(account_id@),
    {
        self.burners.contains_key(&account_id)
    }

    /// Whether an account is a transfer route.
    pub fn is_transfer_router(&self, account_id: AccountId) -> (r: bool)
        requires
            self.wf(),
        ensures
            r == self.transfer_whitelist.contains(account_id@),
    {
        self.transfer_whitelist.contains_key(&account_id)
    }

    /// Whether transfers are restricted.
    pub fn get_transfer_restricted(&self) -> (r: bool)
        ensures
            r == self.transfer_restricted,
    {
        self.transfer_restricted
    }
}

} // verus!
