//! The collateral vault: collateral deposits mint the voting token one for
//! one, and burning the token redeems the collateral. Token calls are
//! returned to the host, whose results come back through the continuations.
use vstd::prelude::*;
use crate::types::AccountId;

verus! {

/// Why the vault rejected a call. A rejected call changes nothing.
#[derive(Clone, Copy, PartialEq, Eq, Debug, Structural)]
pub enum VaultError {
    Unauthorized,
    AmountZero,
    WrongToken,
    RedemptionsPaused,
    LiabilityTooLow,
    BurnFailed,
    InsufficientCollateral,
    InsufficientLiability,
    InvariantViolated,
    NotPaused,
    ExceedsCollateral,
}

impl VaultError {
    /// A human-readable description of the error.
    pub fn message(&self) -> String {
        let m = match self {
            VaultError::Unauthorized => "Only owner can call this method",
            VaultError::AmountZero => "Amount must be positive",
            VaultError::WrongToken => "Only collateral token can call ft_on_transfer",
            VaultError::RedemptionsPaused => "Redemptions are paused",
            VaultError::LiabilityTooLow => "Vault liability is below requested redemption",
            VaultError::BurnFailed => "NEST burn failed during redemption",
            VaultError::InsufficientCollateral => "Insufficient locked collateral",
            VaultError::InsufficientLiability => "Insufficient minted liability",
            VaultError::InvariantViolated => "Invariant violated: NEST liability exceeds locked collateral",
            VaultError::NotPaused => "Pause redemptions before emergency withdrawal",
            VaultError::ExceedsCollateral => "Amount exceeds tracked collateral",
        };
        m.to_owned()
    }
}

/// The payload of a collateral transfer to the vault.
#[derive(Clone, Copy, PartialEq, Eq, Debug, Structural)]
pub enum VaultFtMessage {
    DepositCollateral,
}

/// A call on a token contract for the host to make: mint, burn or transfer
/// `amount` for `account_id`.
pub struct TokenCall {
    pub token: AccountId,
    pub account_id: AccountId,
    pub amount: u128,
}

/// The vault's accounting at a glance.
pub struct InvariantDiagnostics {
    pub total_locked_collateral: u128,
    pub total_minted_liability: u128,
    pub backing_ratio_bps: Option<u128>,
    /// The minted liability is covered by locked collateral.
    pub invariant_ok: bool,
    pub redemptions_paused: bool,
}

/// The vault's state.
pub struct Vault {
    pub owner: AccountId,
    pub collateral_token: AccountId,
    pub nest_token: AccountId,
    pub emergency_recipient: AccountId,
    pub redemptions_paused: bool,
    pub total_locked_collateral: u128,
    pub total_minted_liability: u128,
}

/// A sum capped at the largest `u128`.
pub open spec fn capped_sum(a: u128, b: u128) -> u128 {
    if a + b > u128::MAX { u128::MAX } else { (a + b) as u128 }
}

impl Vault {
    /// A vault with nothing locked; the emergency recipient defaults to the owner.
    pub fn new(owner: AccountId, collateral_token: AccountId, nest_token: AccountId, emergency_recipient: Option<AccountId>) -> (r: Self)
        ensures
            r.owner == owner,
            r.collateral_token == collateral_token,
            r.nest_token == nest_token,
            r.emergency_recipient == match emergency_recipient { Some(e) => e, None => owner },
            !r.redemptions_paused,
            r.total_locked_collateral == 0,
            r.total_minted_liability == 0,
    {
        let emergency_recipient = match emergency_recipient {
            Some(e) => e,
            None => owner.clone(),
        };
        Vault {
            owner,
            collateral_token,
            nest_token,
            emergency_recipient,
            redemptions_paused: false,
            total_locked_collateral: 0,
            total_minted_liability: 0,
        }
    }

    /// A collateral deposit: `token` is the contract that sent the
    /// notification. Returns the mint of the same amount for the depositor.
    pub fn ft_on_transfer(&self, token: AccountId, sender_id: AccountId, amount: u128, msg: VaultFtMessage) -> (r: Result<TokenCall, VaultError>)
        ensures
            amount == 0 ==> r is Err && r->Err_0 == VaultError::AmountZero,
            amount > 0 && token@ != self.collateral_token@ ==> r is Err && r->Err_0 == VaultError::WrongToken,
            amount > 0 && token@ == self.collateral_token@ ==> r is Ok && r->Ok_0 == (TokenCall {
                token: self.nest_token,
                account_id: sender_id,
                amount,
            }),
    {
        if amount == 0 {
            return Err(VaultError::AmountZero);
        }
        if !token.eq(&self.collateral_token) {
            return Err(VaultError::WrongToken);
        }
        match msg {
            VaultFtMessage::DepositCollateral => Ok(TokenCall { token: self.nest_token.clone(), account_id: sender_id, amount }),
        }
    }

    /// Continuation of a deposit's mint. On success the collateral is locked
    /// and the liability recorded (each sum capped); returns the amount to
    /// refund: nothing on success, everything on failure.
    pub fn on_deposit_mint_complete(&mut self, depositor: AccountId, amount: u128, success: bool) -> (r: Result<u128, VaultError>)
        ensures
            !success ==> r == Ok::<u128, VaultError>(amount) && *final(self) == *old(self),
            success && capped_sum(old(self).total_minted_liability, amount) > capped_sum(old(self).total_locked_collateral, amount)
                ==> r == Err::<u128, VaultError>(VaultError::InvariantViolated) && *final(self) == *old(self),
            success && capped_sum(old(self).total_minted_liability, amount) <= capped_sum(old(self).total_locked_collateral, amount)
                ==> r == Ok::<u128, VaultError>(0) && *final(self) == (Vault {
                    total_locked_collateral: capped_sum(old(self).total_locked_collateral, amount),
                    total_minted_liability: capped_sum(old(self).total_minted_liability, amount),
                    ..*old(self)
                }),
    {
        if !success {
            return Ok(amount);
        }
        let locked = self.total_locked_collateral.saturating_add(amount);
        let liability = self.total_minted_liability.saturating_add(amount);
        if liability > locked {
            return Err(VaultError::InvariantViolated);
        }
        self.total_locked_collateral = locked;
        self.total_minted_liability = liability;
        Ok(0)
    }

    /// A redemption by `caller`: returns the burn of `amount` of its tokens.
    pub fn redeem_collateral(&self, caller: AccountId, amount: u128) -> (r: Result<TokenCall, VaultError>)
        ensures
            self.redemptions_paused ==> r is Err && r->Err_0 == VaultError::RedemptionsPaused,
            !self.redemptions_paused && amount == 0 ==> r is Err && r->Err_0 == VaultError::AmountZero,
            !self.redemptions_paused && amount > 0 && self.total_minted_liability < amount ==> r is Err
                && r->Err_0 == VaultError::LiabilityTooLow,
            !self.redemptions_paused && amount > 0 && self.total_minted_liability >= amount ==> r is Ok
                && r->Ok_0 == (TokenCall { token: self.nest_token, account_id: caller, amount }),
    {
        if self.redemptions_paused {
            return Err(VaultError::RedemptionsPaused);
        }
        if amount == 0 {
            return Err(VaultError::AmountZero);
        }
        if self.total_minted_liability < amount {
            return Err(VaultError::LiabilityTooLow);
        }
        Ok(TokenCall { token: self.nest_token.clone(), account_id: caller, amount })
    }

    /// Continuation of a redemption's burn: releases the collateral and
    /// returns its transfer to the redeemer.
    pub fn on_redeem_burn_complete(&mut self, redeemer: AccountId, amount: u128, success: bool) -> (r: Result<TokenCall, VaultError>)
        ensures
            r is Err ==> *final(self) == *old(self),
            !success ==> r is Err && r->Err_0 == VaultError::BurnFailed,
            success && old(self).total_locked_collateral < amount ==> r is Err && r->Err_0 == VaultError::InsufficientCollateral,
            success && old(self).total_locked_collateral >= amount && old(self).total_minted_liability < amount
                ==> r is Err && r->Err_0 == VaultError::InsufficientLiability,
            success && old(self).total_locked_collateral >= amount && old(self).total_minted_liability >= amount ==> {
                if old(self).total_minted_liability > old(self).total_locked_collateral {
                    r is Err && r->Err_0 == VaultError::InvariantViolated
                } else {
                    &&& r is Ok
                    &&& r->Ok_0 == (TokenCall { token: old(self).collateral_token, account_id: redeemer, amount })
                    &&& *final(self) == (Vault {
                        total_locked_collateral: (old(self).total_locked_collateral - amount) as u128,
                        total_minted_liability: (old(self).total_minted_liability - amount) as u128,
                        ..*old(self)
                    })
                }
            },
    {
        if !success {
            return Err(VaultError::BurnFailed);
        }
        if self.total_locked_collateral < amount {
            return Err(VaultError::InsufficientCollateral);
        }
        if self.total_minted_liability < amount {
            return Err(VaultError::InsufficientLiability);
        }
        let locked = self.total_locked_collateral - amount;
        let liability = self.total_minted_liability - amount;
        if liability > locked {
            return Err(VaultError::InvariantViolated);
        }
        self.total_locked_collateral = locked;
        self.total_minted_liability = liability;
        Ok(TokenCall { token: self.collateral_token.clone(), account_id: redeemer, amount })
    }

    /// Continuation of a redemption's collateral transfer. On failure the
    /// accounting is restored (each sum capped) and the burned tokens are to
    /// be minted back. Returns whether the redemption completed, and the
    /// mint to make.
    pub fn on_redeem_transfer_complete(&mut self, redeemer: AccountId, amount: u128, success: bool) -> (r: Result<(bool, Option<TokenCall>), VaultError>)
        ensures
            success ==> r is Ok && r->Ok_0.0 && r->Ok_0.1 is None && *final(self) == *old(self),
            !success && capped_sum(old(self).total_minted_liability, amount) > capped_sum(old(self).total_locked_collateral, amount)
                ==> r is Err && r->Err_0 == VaultError::InvariantViolated && *final(self) == *old(self),
            !success && capped_sum(old(self).total_minted_liability, amount) <= capped_sum(old(self).total_locked_collateral, amount) ==> {
                &&& r is Ok
                &&& !r->Ok_0.0
                &&& r->Ok_0.1 == Some(TokenCall { token: old(self).nest_token, account_id: redeemer, amount })
                &&& *final(self) == (Vault {
                    total_locked_collateral: capped_sum(old(self).total_locked_collateral, amount),
                    total_minted_liability: capped_sum(old(self).total_minted_liability, amount),
                    ..*old(self)
                })
            },
    {
        if success {
            return Ok((true, None));
        }
        let locked = self.total_locked_collateral.saturating_add(amount);
        let liability = self.total_minted_liability.saturating_add(amount);
        if liability > locked {
            return Err(VaultError::InvariantViolated);
        }
        self.total_locked_collateral = locked;
        self.total_minted_liability = liability;
        Ok((false, Some(TokenCall { token: self.nest_token.clone(), account_id: redeemer, amount })))
    }

    /// Pauses redemptions. Owner only.
    pub fn pause_redemptions(&mut self, caller: AccountId) -> (r: Result<(), VaultError>)
        ensures
            caller@ != old(self).owner@ ==> r == Err::<(), VaultError>(VaultError::Unauthorized) && *final(self) == *old(self),
            caller@ == old(self).owner@ ==> r is Ok && *final(self) == (Vault { redemptions_paused: true, ..*old(self) }),
    {
        if !caller.eq(&self.owner) {
            return Err(VaultError::Unauthorized);
        }
        self.redemptions_paused = true;
        Ok(())
    }

    /// Resumes redemptions. Owner only.
    pub fn resume_redemptions(&mut self, caller: AccountId) -> (r: Result<(), VaultError>)
        ensures
            caller@ != old(self).owner@ ==> r == Err::<(), VaultError>(VaultError::Unauthorized) && *final(self) == *old(self),
            caller@ == old(self).owner@ ==> r is Ok && *final(self) == (Vault { redemptions_paused: false, ..*old(self) }),
    {
        if !caller.eq(&self.owner) {
            return Err(VaultError::Unauthorized);
        }
        self.redemptions_paused = false;
        Ok(())
    }

    /// Moves tracked collateral to the emergency recipient while redemptions
    /// are paused. Owner only.
    pub fn emergency_withdraw_collateral(&mut self, caller: AccountId, amount: u128) -> (r: Result<TokenCall, VaultError>)
        ensures
            r is Err ==> *final(self) == *old(self),
            caller@ != old(self).owner@ ==> r is Err && r->Err_0 == VaultError::Unauthorized,
            caller@ == old(self).owner@ && !old(self).redemptions_paused ==> r is Err && r->Err_0 == VaultError::NotPaused,
            caller@ == old(self).owner@ && old(self).redemptions_paused && amount == 0 ==> r is Err && r->Err_0 == VaultError::AmountZero,
            caller@ == old(self).owner@ && old(self).redemptions_paused && amount > 0 && old(self).total_locked_collateral < amount
                ==> r is Err && r->Err_0 == VaultError::ExceedsCollateral,
            caller@ == old(self).owner@ && old(self).redemptions_paused && amount > 0 && old(self).total_locked_collateral >= amount ==> {
                &&& r is Ok
                &&& r->Ok_0 == (TokenCall { token: old(self).collateral_token, account_id: old(self).emergency_recipient, amount })
                &&& *final(self) == (Vault { total_locked_collateral: (old(self).total_locked_collateral - amount) as u128, ..*old(self) })
            },
    {
        if !caller.eq(&self.owner) {
            return Err(VaultError::Unauthorized);
        }
        if !self.redemptions_paused {
            return Err(VaultError::NotPaused);
        }
        if amount == 0 {
            return Err(VaultError::AmountZero);
        }
        if self.total_locked_collateral < amount {
            return Err(VaultError::ExceedsCollateral);
        }
        self.total_locked_collateral = self.total_locked_collateral - amount;
        Ok(TokenCall { token: self.collateral_token.clone(), account_id: self.emergency_recipient.clone(), amount })
    }

    /// Hands ownership over. Owner only.
    pub fn set_owner(&mut self, caller: AccountId, new_owner: AccountId) -> (r: Result<(), VaultError>)
        ensures
            caller@ != old(self).owner@ ==> r == Err::<(), VaultError>(VaultError::Unauthorized) && *final(self) == *old(self),
            caller@ == old(self).owner@ ==> r is Ok && *final(self) == (Vault { owner: new_owner, ..*old(self) }),
    {
        if !caller.eq(&self.owner) {
            return Err(VaultError::Unauthorized);
        }
        self.owner = new_owner;
        Ok(())
    }

    /// Sets the collateral token. Owner only.
    pub fn set_collateral_token(&mut self, caller: AccountId, collateral_token: AccountId) -> (r: Result<(), VaultError>)
        ensures
            caller@ != old(self).owner@ ==> r == Err::<(), VaultError>(VaultError::Unauthorized) && *final(self) == *old(self),
            caller@ == old(self).owner@ ==> r is Ok && *final(self) == (Vault { collateral_token, ..*old(self) }),
    {
        if !caller.eq(&self.owner) {
            return Err(VaultError::Unauthorized);
        }
        self.collateral_token = collateral_token;
        Ok(())
    }

    /// Sets the minted token. Owner only.
    pub fn set_nest_token(&mut self, caller: AccountId, nest_token: AccountId) -> (r: Result<(), VaultError>)
        ensures
            caller@ != old(self).owner@ ==> r == Err::<(), VaultError>(VaultError::Unauthorized) && *final(self) == *old(self),
            caller@ == old(self).owner@ ==> r is Ok && *final(self) == (Vault { nest_token, ..*old(self) }),
    {
        if !caller.eq(&self.owner) {
            return Err(VaultError::Unauthorized);
        }
        self.nest_token = nest_token;
        Ok(())
    }

    /// Sets the emergency recipient. Owner only.
    pub fn set_emergency_recipient(&mut self, caller: AccountId, emergency_recipient: AccountId) -> (r: Result<(), VaultError>)
        ensures
            caller@ != old(self).owner@ ==> r == Err::<(), VaultError>(VaultError::Unauthorized) && *final(self) == *old(self),
            caller@ == old(self).owner@ ==> r is Ok && *final(self) == (Vault { emergency_recipient, ..*old(self) }),
    {
        if !caller.eq(&self.owner) {
            return Err(VaultError::Unauthorized);
        }
        self.emergency_recipient = emergency_recipient;
        Ok(())
    }

    /// The owner.
    pub fn get_owner(&self) -> (r: AccountId)
        ensures
            r == self.owner,
    {
        self.owner.clone()
    }

    /// The collateral token.
    pub fn get_collateral_token(&self) -> (r: AccountId)
        ensures
            r == self.collateral_token,
    {
        self.collateral_token.clone()
    }

    /// The minted token.
    pub fn get_nest_token(&self) -> (r: AccountId)
        ensures
            r == self.nest_token,
    {
        self.nest_token.clone()
    }

    /// Whether redemptions are paused.
    pub fn get_redemptions_paused(&self) -> (r: bool)
        ensures
            r == self.redemptions_paused,
    {
        self.redemptions_paused
    }

    /// The locked collateral.
    pub fn get_total_locked_collateral(&self) -> (r: u128)
        ensures
            r == self.total_locked_collateral,
    {
        self.total_locked_collateral
    }

    /// The minted liability.
    pub fn get_total_minted_liability(&self) -> (r: u128)
        ensures
            r == self.total_minted_liability,
    {
        self.total_minted_liability
    }

    /// Locked collateral per unit of liability, in basis points (the product
    /// capped at the largest `u128`); `None` while nothing is minted.
    pub fn get_backing_ratio_bps(&self) -> (r: Option<u128>)
        ensures
            self.total_minted_liability == 0 ==> r is None,
            self.total_minted_liability > 0 ==> r == Some((if self.total_locked_collateral * 10000 > u128::MAX {
                u128::MAX as int
            } else {
                self.total_locked_collateral * 10000
            } / self.total_minted_liability as int) as u128),
    {
        if self.total_minted_liability == 0 {
            return None;
        }
        let scaled = match self.total_locked_collateral.checked_mul(10_000) {
            Some(v) => v,
            None => u128::MAX,
        };
        Some(scaled / self.total_minted_liability)
    }

    /// The accounting at a glance.
    pub fn get_invariant_diagnostics(&self) -> (r: InvariantDiagnostics)
        ensures
            r.total_locked_collateral == self.total_locked_collateral,
            r.total_minted_liability == self.total_minted_liability,
            (r.backing_ratio_bps is None) == (self.total_minted_liability == 0),
            r.invariant_ok == (self.total_minted_liability <= self.total_locked_collateral),
            r.redemptions_paused == self.redemptions_paused,
    {
        InvariantDiagnostics {
            total_locked_collateral: self.total_locked_collateral,
            total_minted_liability: self.total_minted_liability,
            backing_ratio_bps: self.get_backing_ratio_bps(),
            invariant_ok: self.total_minted_liability <= self.total_locked_collateral,
            redemptions_paused: self.redemptions_paused,
        }
    }
}

} // verus!
