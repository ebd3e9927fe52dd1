//! The small owner-gated registries around the oracle: service discovery,
//! the identifier whitelist, the contract registry, the final-fee store and
//! the slashing-rate calculator.
use vstd::prelude::*;
use crate::keyed::KeyedStore;
use crate::oracle::Withdrawal;
use crate::tally::bps_share;
use crate::types::AccountId;

verus! {

/// Why a registry rejected a call. A rejected call changes nothing.
#[derive(Clone, Copy, PartialEq, Eq, Debug, Structural)]
pub enum AdminError {
    Unauthorized,
    NotWithdrawer,
    ImplementationNotFound,
    EmptyIdentifier,
    RateTooHigh,
    AmountZero,
    InsufficientBalance,
}

impl AdminError {
    /// A human-readable description of the error.
    pub fn message(&self) -> String {
        let m = match self {
            AdminError::Unauthorized => "Only owner can call this method",
            AdminError::NotWithdrawer => "Only withdrawer can call this method",
            AdminError::ImplementationNotFound => "Implementation not found",
            AdminError::EmptyIdentifier => "Identifier cannot be empty",
            AdminError::RateTooHigh => "Slashing rate cannot exceed 100%",
            AdminError::AmountZero => "Amount must be positive",
            AdminError::InsufficientBalance => "Insufficient balance",
        };
        m.to_owned()
    }
}

/// Record of a changed interface implementation.
pub struct InterfaceImplementationChanged {
    pub interface_name: String,
    pub new_implementation: AccountId,
}

/// Record of an identifier added to the whitelist.
pub struct SupportedIdentifierAdded {
    pub identifier: String,
}

/// Record of an identifier removed from the whitelist.
pub struct SupportedIdentifierRemoved {
    pub identifier: String,
}

/// Record of a newly registered contract.
pub struct ContractRegistered {
    pub contract_address: AccountId,
    pub creator: AccountId,
}

/// Record of an unregistered contract.
pub struct ContractUnregistered {
    pub contract_address: AccountId,
}

/// Record of a final fee set for a currency.
pub struct FinalFeeSet {
    pub currency: AccountId,
    pub fee: u128,
}

/// Service discovery: interface names mapped to the accounts implementing them.
pub struct Finder {
    pub owner: AccountId,
    pub interfaces: KeyedStore<AccountId>,
}

impl Finder {
    /// The invariant.
    pub open spec fn wf(&self) -> bool {
        self.interfaces.wf()
    }

    /// A finder with no interface registered.
    pub fn new(owner: AccountId) -> (r: Self)
        ensures
            r.wf(),
            r.owner == owner,
            forall|k: Seq<char>| !r.interfaces.contains(k),
    {
        Finder { owner, interfaces: KeyedStore::new() }
    }

    /// Points an interface at an implementation. Owner only.
    pub fn change_implementation_address(
        &mut self,
        caller: AccountId,
        interface_name: String,
        implementation_address: AccountId,
    ) -> (r: Result<InterfaceImplementationChanged, AdminError>)
        requires
            old(self).wf(),
        ensures
            final(self).wf(),
            caller@ != old(self).owner@ ==> r is Err && r->Err_0 == AdminError::Unauthorized && *final(self) == *old(self),
            caller@ == old(self).owner@ ==> {
                &&& r is Ok
                &&& r->Ok_0.interface_name == interface_name
                &&& r->Ok_0.new_implementation == implementation_address
                &&& final(self).owner == old(self).owner
                &&& final(self).interfaces.contains(interface_name@)
                &&& final(self).interfaces.lookup(interface_name@) == implementation_address
                &&& final(self).interfaces.agrees_except(&old(self).interfaces, interface_name@)
            },
    {
        if !caller.eq(&self.owner) {
            return Err(AdminError::Unauthorized);
        }
        let _ = self.interfaces.insert(interface_name.clone(), implementation_address.clone());
        Ok(InterfaceImplementationChanged { interface_name, new_implementation: implementation_address })
    }

    /// Removes an interface's implementation, if any. Owner only.
    pub fn remove_implementation(&mut self, caller: AccountId, interface_name: String) -> (r: Result<(), AdminError>)
        requires
            old(self).wf(),
        ensures
            final(self).wf(),
            caller@ != old(self).owner@ ==> r == Err::<(), AdminError>(AdminError::Unauthorized) && *final(self) == *old(self),
            caller@ == old(self).owner@ ==> {
                &&& r is Ok
                &&& final(self).owner == old(self).owner
                &&& !final(self).interfaces.contains(interface_name@)
                &&& final(self).interfaces.agrees_except(&old(self).interfaces, interface_name@)
            },
    {
        if !caller.eq(&self.owner) {
            return Err(AdminError::Unauthorized);
        }
        let _ = self.interfaces.remove(&interface_name);
        Ok(())
    }

    /// The implementation of an interface.
    pub fn get_implementation_address(&self, interface_name: String) -> (r: Result<AccountId, AdminError>)
        requires
            self.wf(),
        ensures
            self.interfaces.contains(interface_name@) ==> r == Ok::<AccountId, AdminError>(self.interfaces.lookup(interface_name@)),
            !self.interfaces.contains(interface_name@) ==> r == Err::<AccountId, AdminError>(AdminError::ImplementationNotFound),
    {
        match self.interfaces.get(&interface_name) {
            Some(a) => Ok(a.clone()),
            None => Err(AdminError::ImplementationNotFound),
        }
    }

    /// Whether an interface has an implementation.
    pub fn has_implementation(&self, interface_name: String) -> (r: bool)
        requires
            self.wf(),
        ensures
            r == self.interfaces.contains(interface_name@),
    {
        self.interfaces.contains_key(&interface_name)
    }

    /// Hands ownership over. Owner only.
    pub fn set_owner(&mut self, caller: AccountId, new_owner: AccountId) -> (r: Result<(), AdminError>)
        ensures
            caller@ != old(self).owner@ ==> r == Err::<(), AdminError>(AdminError::Unauthorized) && *final(self) == *old(self),
            caller@ == old(self).owner@ ==> r is Ok && *final(self) == (Finder { owner: new_owner, ..*old(self) }),
    {
        if !caller.eq(&self.owner) {
            return Err(AdminError::Unauthorized);
        }
        self.owner = new_owner;
        Ok(())
    }

    /// The owner.
    pub fn get_owner(&self) -> (r: AccountId)
        ensures
            r == self.owner,
    {
        self.owner.clone()
    }
}

/// The whitelist of price identifiers.
pub struct IdentifierWhitelist {
    pub owner: AccountId,
    pub supported_identifiers: KeyedStore<()>,
}

impl IdentifierWhitelist {
    /// The invariant.
    pub open spec fn wf(&self) -> bool {
        self.supported_identifiers.wf()
    }

    /// An empty whitelist.
    pub fn new(owner: AccountId) -> (r: Self)
        ensures
            r.wf(),
            r.owner == owner,
            forall|k: Seq<char>| !r.supported_identifiers.contains(k),
    {
        IdentifierWhitelist { owner, supported_identifiers: KeyedStore::new() }
    }

    /// Adds a non-empty identifier. Owner only. Returns the record to emit
    /// when the identifier is new.
    pub fn add_supported_identifier(&mut self, caller: AccountId, identifier: String) -> (r: Result<Option<SupportedIdentifierAdded>, AdminError>)
        requires
            old(self).wf(),
        ensures
            final(self).wf(),
            caller@ != old(self).owner@ ==> r is Err && r->Err_0 == AdminError::Unauthorized && *final(self) == *old(self),
            caller@ == old(self).owner@ && identifier@.len() == 0 ==> r is Err && r->Err_0 == AdminError::EmptyIdentifier
                && *final(self) == *old(self),
            caller@ == old(self).owner@ && identifier@.len() > 0 ==> {
                &&& r is Ok
                &&& (r->Ok_0 is Some) == !old(self).supported_identifiers.contains(identifier@)
                &&& r->Ok_0 is Some ==> r->Ok_0->Some_0.identifier == identifier
                &&& final(self).owner == old(self).owner
                &&& final(self).supported_identifiers.contains(identifier@)
                &&& final(self).supported_identifiers.agrees_except(&old(self).supported_identifiers, identifier@)
            },
    {
        if !caller.eq(&self.owner) {
            return Err(AdminError::Unauthorized);
        }
        if identifier.as_str().is_empty() {
            return Err(AdminError::EmptyIdentifier);
        }
        if self.supported_identifiers.insert(identifier.clone(), ()) {
            Ok(Some(SupportedIdentifierAdded { identifier }))
        } else {
            Ok(None)
        }
    }

    /// Removes an identifier. Owner only. Returns the record to emit when it was present.
    pub fn remove_supported_identifier(&mut self, caller: AccountId, identifier: String) -> (r: Result<Option<SupportedIdentifierRemoved>, AdminError>)
        requires
            old(self).wf(),
        ensures
            final(self).wf(),
            caller@ != old(self).owner@ ==> r is Err && r->Err_0 == AdminError::Unauthorized && *final(self) == *old(self),
            caller@ == old(self).owner@ ==> {
                &&& r is Ok
                &&& (r->Ok_0 is Some) == old(self).supported_identifiers.contains(identifier@)
                &&& r->Ok_0 is Some ==> r->Ok_0->Some_0.identifier == identifier
                &&& final(self).owner == old(self).owner
                &&& !final(self).supported_identifiers.contains(identifier@)
                &&& final(self).supported_identifiers.agrees_except(&old(self).supported_identifiers, identifier@)
            },
    {
        if !caller.eq(&self.owner) {
            return Err(AdminError::Unauthorized);
        }
        if self.supported_identifiers.remove(&identifier) {
            Ok(Some(SupportedIdentifierRemoved { identifier }))
        } else {
            Ok(None)
        }
    }

    /// Whether an identifier is whitelisted.
    pub fn is_identifier_supported(&self, identifier: String) -> (r: bool)
        requires
            self.wf(),
        ensures
            r == self.supported_identifiers.contains(identifier@),
    {
        self.supported_identifiers.contains_key(&identifier)
    }

    /// Hands ownership over. Owner only.
    pub fn set_owner(&mut self, caller: AccountId, new_owner: AccountId) -> (r: Result<(), AdminError>)
        ensures
            caller@ != old(self).owner@ ==> r == Err::<(), AdminError>(AdminError::Unauthorized) && *final(self) == *old(self),
            caller@ == old(self).owner@ ==> r is Ok && *final(self) == (IdentifierWhitelist { owner: new_owner, ..*old(self) }),
    {
        if !caller.eq(&self.owner) {
            return Err(AdminError::Unauthorized);
        }
        self.owner = new_owner;
        Ok(())
    }

    /// The owner.
    pub fn get_owner(&self) -> (r: AccountId)
        ensures
            r == self.owner,
    {
        self.owner.clone()
    }
}

/// The registry of contracts allowed to use the oracle.
pub struct Registry {
    pub owner: AccountId,
    pub registered_contracts: KeyedStore<()>,
}

impl Registry {
    /// The invariant.
    pub open spec fn wf(&self) -> bool {
        self.registered_contracts.wf()
    }

    /// An empty registry.
    pub fn new(owner: AccountId) -> (r: Self)
        ensures
            r.wf(),
            r.owner == owner,
            forall|k: Seq<char>| !r.registered_contracts.contains(k),
    {
        Registry { owner, registered_contracts: KeyedStore::new() }
    }

    /// Registers a contract. Owner only. Returns the record to emit when it is new.
    pub fn register_contract(&mut self, caller: AccountId, contract_address: AccountId) -> (r: Result<Option<ContractRegistered>, AdminError>)
        requires
            old(self).wf(),
        ensures
            final(self).wf(),
            caller@ != old(self).owner@ ==> r is Err && r->Err_0 == AdminError::Unauthorized && *final(self) == *old(self),
            caller@ == old(self).owner@ ==> {
                &&& r is Ok
                &&& (r->Ok_0 is Some) == !old(self).registered_contracts.contains(contract_address@)
                &&& r->Ok_0 is Some ==> r->Ok_0->Some_0.contract_address == contract_address && r->Ok_0->Some_0.creator == caller
                &&& final(self).owner == old(self).owner
                &&& final(self).registered_contracts.contains(contract_address@)
                &&& final(self).registered_contracts.agrees_except(&old(self).registered_contracts, contract_address@)
            },
    {
        if !caller.eq(&self.owner) {
            return Err(AdminError::Unauthorized);
        }
        if self.registered_contracts.insert(contract_address.clone(), ()) {
            Ok(Some(ContractRegistered { contract_address, creator: caller }))
        } else {
            Ok(None)
        }
    }

    /// Unregisters a contract. Owner only. Returns the record to emit when it was registered.
    pub fn unregister_contract(&mut self, caller: AccountId, contract_address: AccountId) -> (r: Result<Option<ContractUnregistered>, AdminError>)
        requires
            old(self).wf(),
        ensures
            final(self).wf(),
            caller@ != old(self).owner@ ==> r is Err && r->Err_0 == AdminError::Unauthorized && *final(self) == *old(self),
            caller@ == old(self).owner@ ==> {
                &&& r is Ok
                &&& (r->Ok_0 is Some) == old(self).registered_contracts.contains(contract_address@)
                &&& r->Ok_0 is Some ==> r->Ok_0->Some_0.contract_address == contract_address
                &&& final(self).owner == old(self).owner
                &&& !final(self).registered_contracts.contains(contract_address@)
                &&& final(self).registered_contracts.agrees_except(&old(self).registered_contracts, contract_address@)
            },
    {
        if !caller.eq(&self.owner) {
            return Err(AdminError::Unauthorized);
        }
        if self.registered_contracts.remove(&contract_address) {
            Ok(Some(ContractUnregistered { contract_address }))
        } else {
            Ok(None)
        }
    }

    /// Whether a contract is registered.
    pub fn is_contract_registered(&self, contract_address: AccountId) -> (r: bool)
        requires
            self.wf(),
        ensures
            r == self.registered_contracts.contains(contract_address@),
    {
        self.registered_contracts.contains_key(&contract_address)
    }

    /// Hands ownership over. Owner only.
    pub fn set_owner(&mut self, caller: AccountId, new_owner: AccountId) -> (r: Result<(), AdminError>)
        ensures
            caller@ != old(self).owner@ ==> r == Err::<(), AdminError>(AdminError::Unauthorized) && *final(self) == *old(self),
            caller@ == old(self).owner@ ==> r is Ok && *final(self) == (Registry { owner: new_owner, ..*old(self) }),
    {
        if !caller.eq(&self.owner) {
            return Err(AdminError::Unauthorized);
        }
        self.owner = new_owner;
        Ok(())
    }

    /// The owner.
    pub fn get_owner(&self) -> (r: AccountId)
        ensures
            r == self.owner,
    {
        self.owner.clone()
    }
}

/// The per-currency final fees, and the account allowed to withdraw what the store holds.
pub struct Store {
    pub owner: AccountId,
    pub withdrawer: AccountId,
    pub final_fees: KeyedStore<u128>,
}

impl Store {
    /// The invariant.
    pub open spec fn wf(&self) -> bool {
        self.final_fees.wf()
    }

    /// The final fee of a currency; zero when none is set.
    pub open spec fn fee_of(&self, currency: Seq<char>) -> u128 {
        if self.final_fees.contains(currency) {
            self.final_fees.lookup(currency)
        } else {
            0
        }
    }

    /// A store with no fee set.
    pub fn new(owner: AccountId, withdrawer: AccountId) -> (r: Self)
        ensures
            r.wf(),
            r.owner == owner,
            r.withdrawer == withdrawer,
            forall|k: Seq<char>| !r.final_fees.contains(k),
    {
        Store { owner, withdrawer, final_fees: KeyedStore::new() }
    }

    /// Sets the final fee of a currency. Owner only.
    pub fn set_final_fee(&mut self, caller: AccountId, currency: AccountId, fee: u128) -> (r: Result<FinalFeeSet, AdminError>)
        requires
            old(self).wf(),
        ensures
            final(self).wf(),
            caller@ != old(self).owner@ ==> r is Err && r->Err_0 == AdminError::Unauthorized && *final(self) == *old(self),
            caller@ == old(self).owner@ ==> {
                &&& r is Ok
                &&& r->Ok_0.currency == currency
                &&& r->Ok_0.fee == fee
                &&& final(self).owner == old(self).owner
                &&& final(self).withdrawer == old(self).withdrawer
                &&& final(self).final_fees.contains(currency@)
                &&& final(self).fee_of(currency@) == fee
                &&& final(self).final_fees.agrees_except(&old(self).final_fees, currency@)
            },
    {
        if !caller.eq(&self.owner) {
            return Err(AdminError::Unauthorized);
        }
        let _ = self.final_fees.insert(currency.clone(), fee);
        Ok(FinalFeeSet { currency, fee })
    }

    /// Removes the final fee of a currency. Owner only.
    pub fn remove_final_fee(&mut self, caller: AccountId, currency: AccountId) -> (r: Result<(), AdminError>)
        requires
            old(self).wf(),
        ensures
            final(self).wf(),
            caller@ != old(self).owner@ ==> r == Err::<(), AdminError>(AdminError::Unauthorized) && *final(self) == *old(self),
            caller@ == old(self).owner@ ==> {
                &&& r is Ok
                &&& final(self).owner == old(self).owner
                &&& final(self).withdrawer == old(self).withdrawer
                &&& !final(self).final_fees.contains(currency@)
                &&& final(self).final_fees.agrees_except(&old(self).final_fees, currency@)
            },
    {
        if !caller.eq(&self.owner) {
            return Err(AdminError::Unauthorized);
        }
        let _ = self.final_fees.remove(&currency);
        Ok(())
    }

    /// The final fee of a currency; zero when none is set.
    pub fn get_final_fee(&self, currency: AccountId) -> (r: u128)
        requires
            self.wf(),
        ensures
            r == self.fee_of(currency@),
    {
        match self.final_fees.get(&currency) {
            Some(f) => *f,
            None => 0,
        }
    }

    /// Whether a currency has a final fee.
    pub fn has_final_fee(&self, currency: AccountId) -> (r: bool)
        requires
            self.wf(),
        ensures
            r == self.final_fees.contains(currency@),
    {
        self.final_fees.contains_key(&currency)
    }

    /// A withdrawal of the native balance to the withdrawer: withdrawer only,
    /// a positive amount of at most `balance`.
    pub fn withdraw_near(&self, caller: AccountId, amount: u128, balance: u128) -> (r: Result<Withdrawal, AdminError>)
        ensures
            caller@ != self.withdrawer@ ==> r == Err::<Withdrawal, AdminError>(AdminError::NotWithdrawer),
            caller@ == self.withdrawer@ && amount == 0 ==> r == Err::<Withdrawal, AdminError>(AdminError::AmountZero),
            caller@ == self.withdrawer@ && amount > 0 && balance < amount ==> r == Err::<Withdrawal, AdminError>(AdminError::InsufficientBalance),
            caller@ == self.withdrawer@ && amount > 0 && balance >= amount ==> r == Ok::<Withdrawal, AdminError>(
                Withdrawal { token: None, receiver_id: self.withdrawer, amount }),
    {
        if !caller.eq(&self.withdrawer) {
            return Err(AdminError::NotWithdrawer);
        }
        if amount == 0 {
            return Err(AdminError::AmountZero);
        }
        if balance < amount {
            return Err(AdminError::InsufficientBalance);
        }
        Ok(Withdrawal { token: None, receiver_id: self.withdrawer.clone(), amount })
    }

    /// A withdrawal of tokens to the withdrawer: withdrawer only, a positive amount.
    pub fn withdraw_token(&self, caller: AccountId, token: AccountId, amount: u128) -> (r: Result<Withdrawal, AdminError>)
        ensures
            caller@ != self.withdrawer@ ==> r == Err::<Withdrawal, AdminError>(AdminError::NotWithdrawer),
            caller@ == self.withdrawer@ && amount == 0 ==> r == Err::<Withdrawal, AdminError>(AdminError::AmountZero),
            caller@ == self.withdrawer@ && amount > 0 ==> r == Ok::<Withdrawal, AdminError>(
                Withdrawal { token: Some(token), receiver_id: self.withdrawer, amount }),
    {
        if !caller.eq(&self.withdrawer) {
            return Err(AdminError::NotWithdrawer);
        }
        if amount == 0 {
            return Err(AdminError::AmountZero);
        }
        Ok(Withdrawal { token: Some(token), receiver_id: self.withdrawer.clone(), amount })
    }

    /// Hands ownership over. Owner only.
    pub fn set_owner(&mut self, caller: AccountId, new_owner: AccountId) -> (r: Result<(), AdminError>)
        ensures
            caller@ != old(self).owner@ ==> r == Err::<(), AdminError>(AdminError::Unauthorized) && *final(self) == *old(self),
            caller@ == old(self).owner@ ==> r is Ok && *final(self) == (Store { owner: new_owner, ..*old(self) }),
    {
        if !caller.eq(&self.owner) {
            return Err(AdminError::Unauthorized);
        }
        self.owner = new_owner;
        Ok(())
    }

    /// Names a new withdrawer. Owner only.
    pub fn set_withdrawer(&mut self, caller: AccountId, new_withdrawer: AccountId) -> (r: Result<(), AdminError>)
        ensures
            caller@ != old(self).owner@ ==> r == Err::<(), AdminError>(AdminError::Unauthorized) && *final(self) == *old(self),
            caller@ == old(self).owner@ ==> r is Ok && *final(self) == (Store { withdrawer: new_withdrawer, ..*old(self) }),
    {
        if !caller.eq(&self.owner) {
            return Err(AdminError::Unauthorized);
        }
        self.withdrawer = new_withdrawer;
        Ok(())
    }

    /// The owner.
    pub fn get_owner(&self) -> (r: AccountId)
        ensures
            r == self.owner,
    {
        self.owner.clone()
    }

    /// The withdrawer.
    pub fn get_withdrawer(&self) -> (r: AccountId)
        ensures
            r == self.withdrawer,
    {
        self.withdrawer.clone()
    }
}

/// The slashing rate applied to stake that voted wrongly.
pub struct SlashingLibrary {
    pub owner: AccountId,
    /// In basis points, at most 10000.
    pub base_slashing_rate: u64,
}

impl SlashingLibrary {
    /// A calculator with a rate of at most 10000 basis points.
    pub fn new(owner: AccountId, base_slashing_rate: u64) -> (r: Result<Self, AdminError>)
        ensures
            base_slashing_rate > 10000 ==> r is Err && r->Err_0 == AdminError::RateTooHigh,
            base_slashing_rate <= 10000 ==> r is Ok && r->Ok_0 == (SlashingLibrary { owner, base_slashing_rate }),
    {
        if base_slashing_rate > 10000 {
            return Err(AdminError::RateTooHigh);
        }
        Ok(SlashingLibrary { owner, base_slashing_rate })
    }

    /// The stake to slash: `wrong_vote_total_stake * rate / 10000`.
    pub fn calculate_slashing(&self, wrong_vote_total_stake: u128) -> (r: u128)
        requires
            self.base_slashing_rate <= 10000,
        ensures
            r == wrong_vote_total_stake as int * self.base_slashing_rate as int / 10000,
    {
        bps_share(wrong_vote_total_stake, self.base_slashing_rate as u128)
    }

    /// The stake to slash given the whole vote; only the wrong stake counts.
    pub fn calculate_slashing_with_context(
        &self,
        wrong_vote_total_stake: u128,
        correct_vote_total_stake: u128,
        total_stake_at_snapshot: u128,
    ) -> (r: u128)
        requires
            self.base_slashing_rate <= 10000,
        ensures
            r == wrong_vote_total_stake as int * self.base_slashing_rate as int / 10000,
    {
        self.calculate_slashing(wrong_vote_total_stake)
    }

    /// Sets the rate, at most 10000 basis points. Owner only.
    pub fn set_base_slashing_rate(&mut self, caller: AccountId, new_rate: u64) -> (r: Result<(), AdminError>)
        ensures
            caller@ != old(self).owner@ ==> r == Err::<(), AdminError>(AdminError::Unauthorized) && *final(self) == *old(self),
            caller@ == old(self).owner@ && new_rate > 10000 ==> r == Err::<(), AdminError>(AdminError::RateTooHigh)
                && *final(self) == *old(self),
            caller@ == old(self).owner@ && new_rate <= 10000 ==> r is Ok && *final(self) == (SlashingLibrary {
                base_slashing_rate: new_rate,
                ..*old(self)
            }),
    {
        if !caller.eq(&self.owner) {
            return Err(AdminError::Unauthorized);
        }
        if new_rate > 10000 {
            return Err(AdminError::RateTooHigh);
        }
        self.base_slashing_rate = new_rate;
        Ok(())
    }

    /// The rate, in basis points.
    pub fn get_base_slashing_rate(&self) -> (r: u64)
        ensures
            r == self.base_slashing_rate,
    {
        self.base_slashing_rate
    }

    /// Hands ownership over. Owner only.
    pub fn set_owner(&mut self, caller: AccountId, new_owner: AccountId) -> (r: Result<(), AdminError>)
        ensures
            caller@ != old(self).owner@ ==> r == Err::<(), AdminError>(AdminError::Unauthorized) && *final(self) == *old(self),
            caller@ == old(self).owner@ ==> r is Ok && *final(self) == (SlashingLibrary { owner: new_owner, ..*old(self) }),
    {
        if !caller.eq(&self.owner) {
            return Err(AdminError::Unauthorized);
        }
        self.owner = new_owner;
        Ok(())
    }

    /// The owner.
    pub fn get_owner(&self) -> (r: AccountId)
        ensures
            r == self.owner,
    {
        self.owner.clone()
    }
}

} // verus!
