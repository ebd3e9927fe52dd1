//! Escalation managers: per-assertion policy providers that may restrict who
//! disputes and may arbitrate disputes themselves.
use vstd::prelude::*;
use crate::digest::{hex_of, keccak256, keccak256_of, to_hex};
use crate::encoding::{le_bytes, push_bytes, push_u64_le};
use crate::keyed::KeyedStore;
use crate::oracle::NUMERICAL_TRUE;
use crate::policy::AssertionPolicy;
use crate::types::{AccountId, Bytes32};

verus! {

/// Why an escalation manager rejected a call. A rejected call changes nothing.
#[derive(Clone, Copy, PartialEq, Eq, Debug, Structural)]
pub enum EscalationError {
    OnlyOracle,
    OnlyOwner,
    PriceNotImplemented,
    ArbitrationNotSupported,
    CannotBlockOnlyByAsserter,
    AlreadyResolved,
    ResolutionNotSet,
}

impl EscalationError {
    /// A human-readable description of the error.
    pub fn message(&self) -> String {
        let m = match self {
            EscalationError::OnlyOracle => "Only the oracle can call this method",
            EscalationError::OnlyOwner => "Only the owner can call this method",
            EscalationError::PriceNotImplemented => "get_price not implemented in base escalation manager",
            EscalationError::ArbitrationNotSupported => "This escalation manager does not support custom arbitration",
            EscalationError::CannotBlockOnlyByAsserter => "Cannot block only by asserter",
            EscalationError::AlreadyResolved => "Arbitration already resolved",
            EscalationError::ResolutionNotSet => "Arbitration resolution not set",
        };
        m.to_owned()
    }
}

/// Record of a price request handed to an escalation manager, in hexadecimal.
pub struct PriceRequestAdded {
    pub identifier: String,
    pub time: u64,
    pub ancillary_data: String,
}

/// The owner's arbitration of one request.
#[derive(Clone, Copy, PartialEq, Eq, Debug, Structural)]
pub struct ArbitrationResolution {
    pub value_set: bool,
    /// True: the assertion was correct.
    pub resolution: bool,
}

/// The manager that allows everything and arbitrates nothing.
pub struct BaseEscalationManager {
    pub oracle: AccountId,
}

/// Calls that only the oracle may make succeed exactly when it makes them.
pub open spec fn oracle_only(oracle: AccountId, caller: AccountId, r: Result<(), EscalationError>) -> bool {
    if caller@ == oracle@ {
        r is Ok
    } else {
        r == Err::<(), EscalationError>(EscalationError::OnlyOracle)
    }
}

impl BaseEscalationManager {
    pub fn new(oracle: AccountId) -> (r: Self)
        ensures
            r.oracle == oracle,
    {
        BaseEscalationManager { oracle }
    }

    /// Every flag off.
    pub fn get_assertion_policy(&self, assertion_id: Bytes32) -> (r: AssertionPolicy)
        ensures
            !r.block_assertion && !r.arbitrate_via_escalation_manager && !r.discard_oracle && !r.validate_disputers,
    {
        AssertionPolicy::default_policy()
    }

    /// Anyone may dispute.
    pub fn is_dispute_allowed(&self, assertion_id: Bytes32, dispute_caller: AccountId) -> (r: bool)
        ensures
            r,
    {
        true
    }

    /// Takes a request from the oracle; returns the record to emit.
    pub fn request_price(&mut self, caller: AccountId, identifier: Bytes32, time: u64, ancillary_data: Vec<u8>) -> (r: Result<PriceRequestAdded, EscalationError>)
        ensures
            *final(self) == *old(self),
            caller@ != old(self).oracle@ ==> r is Err && r->Err_0 == EscalationError::OnlyOracle,
            caller@ == old(self).oracle@ ==> r is Ok && r->Ok_0.identifier@ == hex_of(identifier@)
                && r->Ok_0.time == time && r->Ok_0.ancillary_data@ == hex_of(ancillary_data@),
    {
        if !caller.eq(&self.oracle) {
            return Err(EscalationError::OnlyOracle);
        }
        Ok(PriceRequestAdded {
            identifier: to_hex(identifier.as_slice()),
            time,
            ancillary_data: to_hex(ancillary_data.as_slice()),
        })
    }

    /// This manager does not arbitrate.
    pub fn get_price(&self, identifier: Bytes32, time: u64, ancillary_data: Vec<u8>) -> (r: Result<i128, EscalationError>)
        ensures
            r == Err::<i128, EscalationError>(EscalationError::PriceNotImplemented),
    {
        Err(EscalationError::PriceNotImplemented)
    }

    /// Oracle only; nothing else happens.
    pub fn assertion_resolved_callback(&mut self, caller: AccountId, assertion_id: String, asserted_truthfully: bool) -> (r: Result<(), EscalationError>)
        ensures
            *final(self) == *old(self),
            oracle_only(old(self).oracle, caller, r),
    {
        if !caller.eq(&self.oracle) {
            return Err(EscalationError::OnlyOracle);
        }
        Ok(())
    }

    /// Oracle only; nothing else happens.
    pub fn assertion_disputed_callback(&mut self, caller: AccountId, assertion_id: String) -> (r: Result<(), EscalationError>)
        ensures
            *final(self) == *old(self),
            oracle_only(old(self).oracle, caller, r),
    {
        if !caller.eq(&self.oracle) {
            return Err(EscalationError::OnlyOracle);
        }
        Ok(())
    }

    /// The oracle this manager serves.
    pub fn get_oracle(&self) -> (r: AccountId)
        ensures
            r == self.oracle,
    {
        self.oracle.clone()
    }
}

/// Sets or clears the membership of `account` in an owner-gated set.
fn set_membership(set: &mut KeyedStore<()>, account: AccountId, member: bool)
    requires
        old(set).wf(),
    ensures
        final(set).wf(),
        final(set).contains(account@) == member,
        final(set).agrees_except(old(set), account@),
{
    if member {
        let _ = set.insert(account, ());
    } else {
        let _ = set.remove(&account);
    }
}

/// The manager that lets only whitelisted accounts dispute.
pub struct WhitelistDisputerEscalationManager {
    pub oracle: AccountId,
    pub owner: AccountId,
    pub whitelisted_dispute_callers: KeyedStore<()>,
}

impl WhitelistDisputerEscalationManager {
    /// The invariant.
    pub open spec fn wf(&self) -> bool {
        self.whitelisted_dispute_callers.wf()
    }

    /// A manager owned by `creator`, with an empty whitelist.
    pub fn new(creator: AccountId, oracle: AccountId) -> (r: Self)
        ensures
            r.wf(),
            r.oracle == oracle,
            r.owner == creator,
            forall|k: Seq<char>| !r.whitelisted_dispute_callers.contains(k),
    {
        WhitelistDisputerEscalationManager { oracle, owner: creator, whitelisted_dispute_callers: KeyedStore::new() }
    }

    /// Adds or removes a dispute caller. Owner only.
    pub fn set_dispute_caller_in_whitelist(&mut self, caller: AccountId, dispute_caller: AccountId, whitelisted: bool) -> (r: Result<(), EscalationError>)
        requires
            old(self).wf(),
        ensures
            final(self).wf(),
            caller@ != old(self).owner@ ==> r == Err::<(), EscalationError>(EscalationError::OnlyOwner) && *final(self) == *old(self),
            caller@ == old(self).owner@ ==> {
                &&& r is Ok
                &&& final(self).oracle == old(self).oracle
                &&& final(self).owner == old(self).owner
                &&& final(self).whitelisted_dispute_callers.contains(dispute_caller@) == whitelisted
                &&& final(self).whitelisted_dispute_callers.agrees_except(&old(self).whitelisted_dispute_callers, dispute_caller@)
            },
    {
        if !caller.eq(&self.owner) {
            return Err(EscalationError::OnlyOwner);
        }
        set_membership(&mut self.whitelisted_dispute_callers, dispute_caller, whitelisted);
        Ok(())
    }

    /// Hands ownership over. Owner only.
    pub fn set_owner(&mut self, caller: AccountId, new_owner: AccountId) -> (r: Result<(), EscalationError>)
        ensures
            caller@ != old(self).owner@ ==> r == Err::<(), EscalationError>(EscalationError::OnlyOwner) && *final(self) == *old(self),
            caller@ == old(self).owner@ ==> r is Ok && *final(self) == (WhitelistDisputerEscalationManager { owner: new_owner, ..*old(self) }),
    {
        if !caller.eq(&self.owner) {
            return Err(EscalationError::OnlyOwner);
        }
        self.owner = new_owner;
        Ok(())
    }

    /// Only disputers are validated.
    pub fn get_assertion_policy(&self, assertion_id: Bytes32) -> (r: AssertionPolicy)
        ensures
            !r.block_assertion && !r.arbitrate_via_escalation_manager && !r.discard_oracle && r.validate_disputers,
    {
        AssertionPolicy {
            block_assertion: false,
            arbitrate_via_escalation_manager: false,
            discard_oracle: false,
            validate_disputers: true,
        }
    }

    /// Only whitelisted accounts may dispute.
    pub fn is_dispute_allowed(&self, assertion_id: Bytes32, dispute_caller: AccountId) -> (r: bool)
        requires
            self.wf(),
        ensures
            r == self.whitelisted_dispute_callers.contains(dispute_caller@),
    {
        self.whitelisted_dispute_callers.contains_key(&dispute_caller)
    }

    /// Oracle only; nothing else happens.
    pub fn request_price(&mut self, caller: AccountId, identifier: Bytes32, time: u64, ancillary_data: Vec<u8>) -> (r: Result<(), EscalationError>)
        ensures
            *final(self) == *old(self),
            oracle_only(old(self).oracle, caller, r),
    {
        if !caller.eq(&self.oracle) {
            return Err(EscalationError::OnlyOracle);
        }
        Ok(())
    }

    /// This manager does not arbitrate.
    pub fn get_price(&self, identifier: Bytes32, time: u64, ancillary_data: Vec<u8>) -> (r: Result<i128, EscalationError>)
        ensures
            r == Err::<i128, EscalationError>(EscalationError::ArbitrationNotSupported),
    {
        Err(EscalationError::ArbitrationNotSupported)
    }

    /// Oracle only; nothing else happens.
    pub fn assertion_resolved_callback(&mut self, caller: AccountId, assertion_id: String, asserted_truthfully: bool) -> (r: Result<(), EscalationError>)
        ensures
            *final(self) == *old(self),
            oracle_only(old(self).oracle, caller, r),
    {
        if !caller.eq(&self.oracle) {
            return Err(EscalationError::OnlyOracle);
        }
        Ok(())
    }

    /// Oracle only; nothing else happens.
    pub fn assertion_disputed_callback(&mut self, caller: AccountId, assertion_id: String) -> (r: Result<(), EscalationError>)
        ensures
            *final(self) == *old(self),
            oracle_only(old(self).oracle, caller, r),
    {
        if !caller.eq(&self.oracle) {
            return Err(EscalationError::OnlyOracle);
        }
        Ok(())
    }

    /// The oracle this manager serves.
    pub fn get_oracle(&self) -> (r: AccountId)
        ensures
            r == self.oracle,
    {
        self.oracle.clone()
    }

    /// The owner.
    pub fn get_owner(&self) -> (r: AccountId)
        ensures
            r == self.owner,
    {
        self.owner.clone()
    }

    /// Whether an account may dispute.
    pub fn is_whitelisted(&self, account: AccountId) -> (r: bool)
        requires
            self.wf(),
        ensures
            r == self.whitelisted_dispute_callers.contains(account@),
    {
        self.whitelisted_dispute_callers.contains_key(&account)
    }
}

/// The bytes hashed into an arbitration request id.
pub open spec fn arbitration_preimage(identifier: Seq<u8>, time: u64, ancillary_data: Seq<u8>) -> Seq<u8> {
    identifier + le_bytes(time as int, 8) + ancillary_data
}

/// The arbitration request id: the Keccak-256 digest of the request, in hexadecimal.
pub open spec fn arbitration_request_id(identifier: Seq<u8>, time: u64, ancillary_data: Seq<u8>) -> Seq<char> {
    hex_of(keccak256_of(arbitration_preimage(identifier, time, ancillary_data)))
}

/// The manager with every policy option, and arbitration by its owner.
pub struct FullPolicyEscalationManager {
    pub oracle: AccountId,
    pub owner: AccountId,
    pub block_by_asserting_caller: bool,
    pub block_by_asserter: bool,
    pub validate_disputers: bool,
    pub arbitrate_via_escalation_manager: bool,
    pub discard_oracle: bool,
    pub whitelisted_asserting_callers: KeyedStore<()>,
    pub whitelisted_asserters: KeyedStore<()>,
    pub whitelisted_dispute_callers: KeyedStore<()>,
    /// Resolutions keyed by arbitration request id.
    pub arbitration_resolutions: KeyedStore<ArbitrationResolution>,
}

impl FullPolicyEscalationManager {
    /// The invariant.
    pub open spec fn wf(&self) -> bool {
        &&& self.whitelisted_asserting_callers.wf()
        &&& self.whitelisted_asserters.wf()
        &&& self.whitelisted_dispute_callers.wf()
        &&& self.arbitration_resolutions.wf()
        &&& self.block_by_asserter ==> self.block_by_asserting_caller
    }

    /// A manager owned by `creator`, with every option off.
    pub fn new(creator: AccountId, oracle: AccountId) -> (r: Self)
        ensures
            r.wf(),
            r.oracle == oracle,
            r.owner == creator,
            !r.block_by_asserting_caller && !r.block_by_asserter && !r.validate_disputers,
            !r.arbitrate_via_escalation_manager && !r.discard_oracle,
            forall|k: Seq<char>| !r.arbitration_resolutions.contains(k),
    {
        FullPolicyEscalationManager {
            oracle,
            owner: creator,
            block_by_asserting_caller: false,
            block_by_asserter: false,
            validate_disputers: false,
            arbitrate_via_escalation_manager: false,
            discard_oracle: false,
            whitelisted_asserting_callers: KeyedStore::new(),
            whitelisted_asserters: KeyedStore::new(),
            whitelisted_dispute_callers: KeyedStore::new(),
            arbitration_resolutions: KeyedStore::new(),
        }
    }

    /// Sets the policy options. Blocking by asserter requires blocking by
    /// asserting caller. Owner only.
    pub fn configure(
        &mut self,
        caller: AccountId,
        block_by_asserting_caller: bool,
        block_by_asserter: bool,
        validate_disputers: bool,
        arbitrate_via_escalation_manager: bool,
        discard_oracle: bool,
    ) -> (r: Result<(), EscalationError>)
        requires
            old(self).wf(),
        ensures
            final(self).wf(),
            caller@ != old(self).owner@ ==> r == Err::<(), EscalationError>(EscalationError::OnlyOwner) && *final(self) == *old(self),
            caller@ == old(self).owner@ && block_by_asserter && !block_by_asserting_caller ==> r == Err::<(), EscalationError>(
                EscalationError::CannotBlockOnlyByAsserter) && *final(self) == *old(self),
            caller@ == old(self).owner@ && !(block_by_asserter && !block_by_asserting_caller) ==> r is Ok && *final(self) == (FullPolicyEscalationManager {
                block_by_asserting_caller,
                block_by_asserter,
                validate_disputers,
                arbitrate_via_escalation_manager,
                discard_oracle,
                ..*old(self)
            }),
    {
        if !caller.eq(&self.owner) {
            return Err(EscalationError::OnlyOwner);
        }
        if block_by_asserter && !block_by_asserting_caller {
            return Err(EscalationError::CannotBlockOnlyByAsserter);
        }
        self.block_by_asserting_caller = block_by_asserting_caller;
        self.block_by_asserter = block_by_asserter;
        self.validate_disputers = validate_disputers;
        self.arbitrate_via_escalation_manager = arbitrate_via_escalation_manager;
        self.discard_oracle = discard_oracle;
        Ok(())
    }

    /// The arbitration request id of a request: its Keccak-256 digest in hexadecimal.
    pub fn get_request_id(identifier: &Bytes32, time: u64, ancillary_data: &Vec<u8>) -> (r: String)
        ensures
            r@ == arbitration_request_id(identifier@, time, ancillary_data@),
    {
        let mut data: Vec<u8> = Vec::new();
        push_bytes(&mut data, identifier.as_slice());
        push_u64_le(&mut data, time);
        push_bytes(&mut data, ancillary_data.as_slice());
        assert(data@ =~= arbitration_preimage(identifier@, time, ancillary_data@));
        let digest = keccak256(&data);
        to_hex(digest.as_slice())
    }

    /// Records the owner's arbitration of a request; each request is
    /// arbitrated once. Owner only.
    pub fn set_arbitration_resolution(
        &mut self,
        caller: AccountId,
        identifier: Bytes32,
        time: u64,
        ancillary_data: Vec<u8>,
        resolution: bool,
    ) -> (r: Result<(), EscalationError>)
        requires
            old(self).wf(),
        ensures
            final(self).wf(),
            ({
                let id = arbitration_request_id(identifier@, time, ancillary_data@);
                let done = old(self).arbitration_resolutions.contains(id) && old(self).arbitration_resolutions.lookup(id).value_set;
                &&& caller@ != old(self).owner@ ==> r == Err::<(), EscalationError>(EscalationError::OnlyOwner) && *final(self) == *old(self)
                &&& caller@ == old(self).owner@ && done ==> r == Err::<(), EscalationError>(EscalationError::AlreadyResolved)
                    && *final(self) == *old(self)
                &&& caller@ == old(self).owner@ && !done ==> {
                    &&& r is Ok
                    &&& final(self).arbitration_resolutions.contains(id)
                    &&& final(self).arbitration_resolutions.lookup(id) == (ArbitrationResolution { value_set: true, resolution })
                    &&& final(self).arbitration_resolutions.agrees_except(&old(self).arbitration_resolutions, id)
                    &&& *final(self) == (FullPolicyEscalationManager { arbitration_resolutions: final(self).arbitration_resolutions, ..*old(self) })
                }
            }),
    {
        if !caller.eq(&self.owner) {
            return Err(EscalationError::OnlyOwner);
        }
        let request_id = Self::get_request_id(&identifier, time, &ancillary_data);
        let done = match self.arbitration_resolutions.get(&request_id) {
            Some(res) => res.value_set,
            None => false,
        };
        if done {
            return Err(EscalationError::AlreadyResolved);
        }
        let _ = self.arbitration_resolutions.insert(request_id, ArbitrationResolution { value_set: true, resolution });
        Ok(())
    }

    /// Adds or removes an asserting caller. Owner only.
    pub fn set_whitelisted_asserting_caller(&mut self, caller: AccountId, account: AccountId, whitelisted: bool) -> (r: Result<(), EscalationError>)
        requires
            old(self).wf(),
        ensures
            final(self).wf(),
            caller@ != old(self).owner@ ==> r == Err::<(), EscalationError>(EscalationError::OnlyOwner) && *final(self) == *old(self),
            caller@ == old(self).owner@ ==> {
                &&& r is Ok
                &&& final(self).whitelisted_asserting_callers.contains(account@) == whitelisted
                &&& final(self).whitelisted_asserting_callers.agrees_except(&old(self).whitelisted_asserting_callers, account@)
                &&& *final(self) == (FullPolicyEscalationManager { whitelisted_asserting_callers: final(self).whitelisted_asserting_callers, ..*old(self) })
            },
    {
        if !caller.eq(&self.owner) {
            return Err(EscalationError::OnlyOwner);
        }
        set_membership(&mut self.whitelisted_asserting_callers, account, whitelisted);
        Ok(())
    }

    /// Adds or removes an asserter. Owner only.
    pub fn set_whitelisted_asserter(&mut self, caller: AccountId, asserter: AccountId, whitelisted: bool) -> (r: Result<(), EscalationError>)
        requires
            old(self).wf(),
        ensures
            final(self).wf(),
            caller@ != old(self).owner@ ==> r == Err::<(), EscalationError>(EscalationError::OnlyOwner) && *final(self) == *old(self),
            caller@ == old(self).owner@ ==> {
                &&& r is Ok
                &&& final(self).whitelisted_asserters.contains(asserter@) == whitelisted
                &&& final(self).whitelisted_asserters.agrees_except(&old(self).whitelisted_asserters, asserter@)
                &&& *final(self) == (FullPolicyEscalationManager { whitelisted_asserters: final(self).whitelisted_asserters, ..*old(self) })
            },
    {
        if !caller.eq(&self.owner) {
            return Err(EscalationError::OnlyOwner);
        }
        set_membership(&mut self.whitelisted_asserters, asserter, whitelisted);
        Ok(())
    }

    /// Adds or removes a dispute caller. Owner only.
    pub fn set_whitelisted_dispute_caller(&mut self, caller: AccountId, account: AccountId, whitelisted: bool) -> (r: Result<(), EscalationError>)
        requires
            old(self).wf(),
        ensures
            final(self).wf(),
            caller@ != old(self).owner@ ==> r == Err::<(), EscalationError>(EscalationError::OnlyOwner) && *final(self) == *old(self),
            caller@ == old(self).owner@ ==> {
                &&& r is Ok
                &&& final(self).whitelisted_dispute_callers.contains(account@) == whitelisted
                &&& final(self).whitelisted_dispute_callers.agrees_except(&old(self).whitelisted_dispute_callers, account@)
                &&& *final(self) == (FullPolicyEscalationManager { whitelisted_dispute_callers: final(self).whitelisted_dispute_callers, ..*old(self) })
            },
    {
        if !caller.eq(&self.owner) {
            return Err(EscalationError::OnlyOwner);
        }
        set_membership(&mut self.whitelisted_dispute_callers, account, whitelisted);
        Ok(())
    }

    /// Hands ownership over. Owner only.
    pub fn set_owner(&mut self, caller: AccountId, new_owner: AccountId) -> (r: Result<(), EscalationError>)
        ensures
            caller@ != old(self).owner@ ==> r == Err::<(), EscalationError>(EscalationError::OnlyOwner) && *final(self) == *old(self),
            caller@ == old(self).owner@ ==> r is Ok && *final(self) == (FullPolicyEscalationManager { owner: new_owner, ..*old(self) }),
    {
        if !caller.eq(&self.owner) {
            return Err(EscalationError::OnlyOwner);
        }
        self.owner = new_owner;
        Ok(())
    }

    /// The configured arbitration, discard and disputer-validation flags; never blocks.
    pub fn get_assertion_policy(&self, assertion_id: Bytes32) -> (r: AssertionPolicy)
        ensures
            r == (AssertionPolicy {
                block_assertion: false,
                arbitrate_via_escalation_manager: self.arbitrate_via_escalation_manager,
                discard_oracle: self.discard_oracle,
                validate_disputers: self.validate_disputers,
            }),
    {
        AssertionPolicy {
            block_assertion: false,
            arbitrate_via_escalation_manager: self.arbitrate_via_escalation_manager,
            discard_oracle: self.discard_oracle,
            validate_disputers: self.validate_disputers,
        }
    }

    /// Whether an asserting caller may assert.
    pub fn is_asserting_caller_allowed(&self, asserting_caller: AccountId) -> (r: bool)
        requires
            self.wf(),
        ensures
            r == (!self.block_by_asserting_caller || self.whitelisted_asserting_callers.contains(asserting_caller@)),
    {
        if !self.block_by_asserting_caller {
            return true;
        }
        self.whitelisted_asserting_callers.contains_key(&asserting_caller)
    }

    /// Whether an asserter may assert.
    pub fn is_asserter_allowed(&self, asserter: AccountId) -> (r: bool)
        requires
            self.wf(),
        ensures
            r == (!self.block_by_asserter || self.whitelisted_asserters.contains(asserter@)),
    {
        if !self.block_by_asserter {
            return true;
        }
        self.whitelisted_asserters.contains_key(&asserter)
    }

    /// Whether an account may dispute.
    pub fn is_dispute_allowed(&self, assertion_id: Bytes32, dispute_caller: AccountId) -> (r: bool)
        requires
            self.wf(),
        ensures
            r == (!self.validate_disputers || self.whitelisted_dispute_callers.contains(dispute_caller@)),
    {
        if !self.validate_disputers {
            return true;
        }
        self.whitelisted_dispute_callers.contains_key(&dispute_caller)
    }

    /// Oracle only; nothing else happens.
    pub fn request_price(&mut self, caller: AccountId, identifier: Bytes32, time: u64, ancillary_data: Vec<u8>) -> (r: Result<(), EscalationError>)
        ensures
            *final(self) == *old(self),
            oracle_only(old(self).oracle, caller, r),
    {
        if !caller.eq(&self.oracle) {
            return Err(EscalationError::OnlyOracle);
        }
        Ok(())
    }

    /// The owner's arbitration as a price: `NUMERICAL_TRUE` for true, 0 for false.
    pub fn get_price(&self, identifier: Bytes32, time: u64, ancillary_data: Vec<u8>) -> (r: Result<i128, EscalationError>)
        requires
            self.wf(),
        ensures
            ({
                let id = arbitration_request_id(identifier@, time, ancillary_data@);
                if self.arbitration_resolutions.contains(id) && self.arbitration_resolutions.lookup(id).value_set {
                    r == Ok::<i128, EscalationError>(if self.arbitration_resolutions.lookup(id).resolution { NUMERICAL_TRUE } else { 0 })
                } else {
                    r == Err::<i128, EscalationError>(EscalationError::ResolutionNotSet)
                }
            }),
    {
        let request_id = Self::get_request_id(&identifier, time, &ancillary_data);
        match self.arbitration_resolutions.get(&request_id) {
            Some(res) => {
                if !res.value_set {
                    return Err(EscalationError::ResolutionNotSet);
                }
                if res.resolution {
                    Ok(NUMERICAL_TRUE)
                } else {
                    Ok(0)
                }
            },
            None => Err(EscalationError::ResolutionNotSet),
        }
    }

    /// Oracle only; nothing else happens.
    pub fn assertion_resolved_callback(&mut self, caller: AccountId, assertion_id: String, asserted_truthfully: bool) -> (r: Result<(), EscalationError>)
        ensures
            *final(self) == *old(self),
            oracle_only(old(self).oracle, caller, r),
    {
        if !caller.eq(&self.oracle) {
            return Err(EscalationError::OnlyOracle);
        }
        Ok(())
    }

    /// Oracle only; nothing else happens.
    pub fn assertion_disputed_callback(&mut self, caller: AccountId, assertion_id: String) -> (r: Result<(), EscalationError>)
        ensures
            *final(self) == *old(self),
            oracle_only(old(self).oracle, caller, r),
    {
        if !caller.eq(&self.oracle) {
            return Err(EscalationError::OnlyOracle);
        }
        Ok(())
    }

    /// The oracle this manager serves.
    pub fn get_oracle(&self) -> (r: AccountId)
        ensures
            r == self.oracle,
    {
        self.oracle.clone()
    }

    /// The owner.
    pub fn get_owner(&self) -> (r: AccountId)
        ensures
            r == self.owner,
    {
        self.owner.clone()
    }

    /// The five policy options, in the order `configure` takes them.
    pub fn get_config(&self) -> (r: (bool, bool, bool, bool, bool))
        ensures
            r == (self.block_by_asserting_caller, self.block_by_asserter, self.validate_disputers,
                self.arbitrate_via_escalation_manager, self.discard_oracle),
    {
        (
            self.block_by_asserting_caller,
            self.block_by_asserter,
            self.validate_disputers,
            self.arbitrate_via_escalation_manager,
            self.discard_oracle,
        )
    }

    /// Whether an asserting caller is whitelisted.
    pub fn is_asserting_caller_whitelisted(&self, caller: AccountId) -> (r: bool)
        requires
            self.wf(),
        ensures
            r == self.whitelisted_asserting_callers.contains(caller@),
    {
        self.whitelisted_asserting_callers.contains_key(&caller)
    }

    /// Whether an asserter is whitelisted.
    pub fn is_asserter_whitelisted(&self, asserter: AccountId) -> (r: bool)
        requires
            self.wf(),
        ensures
            r == self.whitelisted_asserters.contains(asserter@),
    {
        self.whitelisted_asserters.contains_key(&asserter)
    }

    /// Whether a dispute caller is whitelisted.
    pub fn is_dispute_caller_whitelisted(&self, caller: AccountId) -> (r: bool)
        requires
            self.wf(),
        ensures
            r == self.whitelisted_dispute_callers.contains(caller@),
    {
        self.whitelisted_dispute_callers.contains_key(&caller)
    }
}

} // verus!
