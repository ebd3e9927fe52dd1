//! The assertion registry: bonded claims, disputes, and the settlement payout saga.
use vstd::prelude::*;
use vstd::arithmetic::div_mod::{lemma_fundamental_div_mod, lemma_hoist_over_denominator};
use crate::digest::{hex_of, keccak256, keccak256_of, to_hex};
use crate::encoding::{
    byte_range, frameable, framed_name, framed_opt_name, le_bytes, lemma_framed_name_prefix,
    lemma_framed_opt_name_prefix, lemma_le_bytes_injective, lemma_le_bytes_len, lemma_split_concat,
    push_bytes, push_framed_name, push_framed_opt_name, push_u128_le, push_u64_le,
};
use crate::tally::{transfer_view, TokenTransfer};
use crate::types::{bytes32_eq, opt_account_view, AccountId, Bytes32, CryptoHash};

verus! {

/// Default liveness: 2 hours, in nanoseconds.
pub const DEFAULT_LIVENESS_NS: u64 = 7_200_000_000_000;

/// Default share of a disputed bond kept as the oracle's fee: one half, scaled by `SCALE`.
pub const BURNED_BOND_PERCENTAGE: u128 = 500_000_000_000_000_000;

/// The canonical "true" price: a resolved price of at least 1 settles an
/// assertion true, any lower price settles it false.
pub const NUMERICAL_TRUE: i128 = 1;

/// Fixed-point scale of percentages.
pub const SCALE: u128 = 1_000_000_000_000_000_000;

/// The default identifier, `ASSERT_TRUTH` padded with zero bytes to 32.
pub open spec fn default_identifier_spec() -> Seq<u8> {
    seq![65u8, 83, 83, 69, 82, 84, 95, 84, 82, 85, 84, 72] + Seq::new(20, |i: int| 0u8)
}

/// Why the oracle rejected a call. A rejected call changes nothing.
#[derive(Clone, Copy, PartialEq, Eq, Debug, Structural)]
pub enum OracleError {
    Unauthorized,
    BurnedBondTooHigh,
    BurnedBondZero,
    AmountZero,
    InsufficientBalance,
    AssertionAlreadyExists,
    UnsupportedIdentifier,
    UnsupportedCurrency,
    BondTooLow,
    ExpirationOverflow,
    AssertionNotFound,
    AlreadyDisputed,
    AssertionExpired,
    WrongCurrency,
    DisputeBondMismatch,
    AlreadySettled,
    SettlementPending,
    AssertionNotExpired,
    NotEscalated,
    VotingNotConfigured,
    DvmNotResolved,
    DvmQueryFailed,
    NotDisputed,
    NotSettled,
    SettlementNotPending,
    PayoutInFlight,
    PayoutNotInFlight,
    PayoutOverflow,
}

impl OracleError {
    /// A human-readable description of the error.
    pub fn message(&self) -> String {
        let m = match self {
            OracleError::Unauthorized => "Only owner can call this method",
            OracleError::BurnedBondTooHigh => "Burned bond percentage > 100%",
            OracleError::BurnedBondZero => "Burned bond percentage is 0",
            OracleError::AmountZero => "Amount must be positive",
            OracleError::InsufficientBalance => "Insufficient balance",
            OracleError::AssertionAlreadyExists => "Assertion already exists",
            OracleError::UnsupportedIdentifier => "Unsupported identifier",
            OracleError::UnsupportedCurrency => "Unsupported currency",
            OracleError::BondTooLow => "Bond amount too low",
            OracleError::ExpirationOverflow => "Expiration time overflows",
            OracleError::AssertionNotFound => "Assertion does not exist",
            OracleError::AlreadyDisputed => "Assertion already disputed",
            OracleError::AssertionExpired => "Assertion is expired",
            OracleError::WrongCurrency => "Wrong currency for dispute",
            OracleError::DisputeBondMismatch => "Dispute bond must match assertion bond",
            OracleError::AlreadySettled => "Assertion already settled",
            OracleError::SettlementPending => "Settlement already pending payout callback",
            OracleError::AssertionNotExpired => "Assertion not expired",
            OracleError::NotEscalated => "Dispute not escalated to DVM - use resolve_disputed_assertion for manual resolution",
            OracleError::VotingNotConfigured => "Voting contract not configured",
            OracleError::DvmNotResolved => "DVM has not resolved this dispute yet",
            OracleError::DvmQueryFailed => "Failed to get DVM resolution",
            OracleError::NotDisputed => "Assertion not disputed",
            OracleError::NotSettled => "Assertion not settled",
            OracleError::SettlementNotPending => "Settlement is not pending",
            OracleError::PayoutInFlight => "Settlement payout attempt already in-flight",
            OracleError::PayoutNotInFlight => "Settlement payout not in-flight",
            OracleError::PayoutOverflow => "Settlement payout overflows",
        };
        m.to_owned()
    }
}

/// How an assertion deals with its escalation manager.
pub struct EscalationManagerSettings {
    pub arbitrate_via_escalation_manager: bool,
    pub discard_oracle: bool,
    pub validate_disputers: bool,
    /// The account that posted the assertion.
    pub asserting_caller: AccountId,
    pub escalation_manager: Option<AccountId>,
}

/// A bonded claim.
pub struct Assertion {
    pub escalation_manager_settings: EscalationManagerSettings,
    pub asserter: AccountId,
    pub assertion_time_ns: u64,
    pub settled: bool,
    /// A payout was started and has not been confirmed.
    pub settlement_pending: bool,
    /// A payout attempt is under way.
    pub settlement_in_flight: bool,
    pub currency: AccountId,
    pub expiration_time_ns: u64,
    pub settlement_resolution: bool,
    /// The resolution that the pending payout settles on.
    pub pending_settlement_resolution: bool,
    pub domain_id: Bytes32,
    pub identifier: Bytes32,
    pub bond: u128,
    pub callback_recipient: Option<AccountId>,
    pub disputer: Option<AccountId>,
    /// The payout fixed when the settlement started; every attempt, the
    /// first and each retry, dispatches exactly this payout.
    pub pending_payout: Option<SettlementPayout>,
}

/// A currency accepted for bonds, with its final fee.
pub struct WhitelistedCurrency {
    pub is_whitelisted: bool,
    pub final_fee: u128,
}

/// An assertion under its id.
pub struct AssertionEntry {
    pub assertion_id: Bytes32,
    pub assertion: Assertion,
}

/// A currency's entry in the whitelist.
pub struct CurrencyEntry {
    pub currency: AccountId,
    pub info: WhitelistedCurrency,
}

/// The voting request that a disputed assertion was escalated to.
pub struct DisputeLink {
    pub assertion_id: Bytes32,
    pub request_id: CryptoHash,
}

/// The arguments of an assertion sent along with its bond.
pub struct AssertTruthArgs {
    pub claim: Bytes32,
    pub asserter: AccountId,
    pub callback_recipient: Option<AccountId>,
    pub escalation_manager: Option<AccountId>,
    pub liveness_ns: Option<u64>,
    pub assertion_time_ns: Option<u64>,
    pub identifier: Option<Bytes32>,
    pub domain_id: Option<Bytes32>,
    pub assertion_id_override: Option<Bytes32>,
}

/// The payload of a bond transfer.
pub enum FtOnTransferMsg {
    AssertTruth(AssertTruthArgs),
    DisputeAssertion { assertion_id: Bytes32, disputer: AccountId },
}

/// A price request to send to the voting engine for a dispute.
pub struct DvmPriceRequest {
    pub voting_contract: AccountId,
    pub identifier: String,
    pub timestamp: u64,
    pub ancillary_data: Vec<u8>,
    /// The assertion whose dispute this is; the answer is reported under it.
    pub assertion_id: Bytes32,
}

/// What a bond transfer led to.
pub enum TransferOutcome {
    Asserted { assertion_id: Bytes32 },
    Disputed { escalation: Option<DvmPriceRequest> },
}

/// A settlement payout to dispatch: the bond transfer, and for a disputed
/// assertion a best-effort fee transfer.
pub struct SettlementPayout {
    pub assertion_id: Bytes32,
    pub currency: AccountId,
    pub recipient: AccountId,
    pub amount: u128,
    pub disputed: bool,
    pub fee_recipient: AccountId,
    pub oracle_fee: u128,
}

impl SettlementPayout {
    /// The token transfers of this payout: for a disputed assertion the fee
    /// to the fee recipient first, when there is one, then the bond payout.
    pub fn transfers(&self) -> (r: Vec<TokenTransfer>)
        ensures
            r@.map_values(|t: TokenTransfer| transfer_view(t)) == (if self.disputed && self.oracle_fee > 0 {
                seq![(self.fee_recipient@, self.oracle_fee as int), (self.recipient@, self.amount as int)]
            } else {
                seq![(self.recipient@, self.amount as int)]
            }),
    {
        let mut out: Vec<TokenTransfer> = Vec::new();
        if self.disputed && self.oracle_fee > 0 {
            out.push(TokenTransfer { recipient: self.fee_recipient.clone(), amount: self.oracle_fee });
        }
        out.push(TokenTransfer { recipient: self.recipient.clone(), amount: self.amount });
        proof {
            let v = out@.map_values(|t: TokenTransfer| transfer_view(t));
            if self.disputed && self.oracle_fee > 0 {
                assert(v =~= seq![(self.fee_recipient@, self.oracle_fee as int), (self.recipient@, self.amount as int)]);
            } else {
                assert(v =~= seq![(self.recipient@, self.amount as int)]);
            }
        }
        out
    }

    /// A copy of the payout.
    pub fn duplicate(&self) -> (r: Self)
        ensures
            r == *self,
    {
        SettlementPayout {
            assertion_id: self.assertion_id,
            currency: self.currency.clone(),
            recipient: self.recipient.clone(),
            amount: self.amount,
            disputed: self.disputed,
            fee_recipient: self.fee_recipient.clone(),
            oracle_fee: self.oracle_fee,
        }
    }
}

/// What settling an assertion leads to.
pub enum SettleStep {
    /// A payout was started.
    Payout(SettlementPayout),
    /// The voting engine must be asked for the resolved price of this request.
    QueryPrice { voting_contract: AccountId, request_id: CryptoHash, assertion_id: Bytes32 },
}

/// A notification for the contract that asked to hear of the resolution.
pub struct ResolvedCallback {
    pub recipient: AccountId,
    /// The assertion id in lowercase hexadecimal.
    pub assertion_id: String,
    pub asserted_truthfully: bool,
}

/// A token transfer out of the oracle.
pub struct Withdrawal {
    pub token: Option<AccountId>,
    pub receiver_id: AccountId,
    pub amount: u128,
}

/// The assertion registry.
pub struct NestOptimisticOracle {
    pub owner: AccountId,
    pub default_currency: AccountId,
    pub default_liveness_ns: u64,
    /// Share of a disputed bond kept as fee, scaled by `SCALE`; in `1..=SCALE`.
    pub burned_bond_percentage: u128,
    pub cached_currencies: Vec<CurrencyEntry>,
    pub cached_identifiers: Vec<Bytes32>,
    /// Every assertion ever made; none is removed.
    pub assertions: Vec<AssertionEntry>,
    pub voting_contract: Option<AccountId>,
    pub dispute_requests: Vec<DisputeLink>,
}

/// The invariant of one assertion.
pub open spec fn assertion_wf(a: Assertion) -> bool {
    &&& a.settlement_in_flight ==> a.settlement_pending
    &&& a.settled ==> !a.settlement_pending && !a.settlement_in_flight
    &&& a.settlement_pending ==> a.pending_payout is Some
}

impl NestOptimisticOracle {
    /// The registry's invariant.
    pub open spec fn wf(&self) -> bool {
        &&& 0 < self.burned_bond_percentage <= SCALE
        &&& forall|i: int, j: int|
            0 <= i < j < self.assertions@.len() ==> self.assertions@[i].assertion_id@ != self.assertions@[j].assertion_id@
        &&& forall|i: int| 0 <= i < self.assertions@.len() ==> assertion_wf(#[trigger] self.assertions@[i].assertion)
        &&& forall|i: int, j: int|
            0 <= i < j < self.cached_currencies@.len() ==> self.cached_currencies@[i].currency@ != self.cached_currencies@[j].currency@
        &&& forall|i: int, j: int|
            0 <= i < j < self.dispute_requests@.len() ==> self.dispute_requests@[i].assertion_id@ != self.dispute_requests@[j].assertion_id@
    }

    /// An assertion with this id exists.
    pub open spec fn has_assertion(&self, id: Seq<u8>) -> bool {
        exists|i: int| 0 <= i < self.assertions@.len() && self.assertions@[i].assertion_id@ == id
    }

    /// The position of the assertion with this id.
    pub open spec fn assertion_index(&self, id: Seq<u8>) -> int {
        choose|i: int| 0 <= i < self.assertions@.len() && self.assertions@[i].assertion_id@ == id
    }

    /// The assertion with this id.
    pub open spec fn assertion(&self, id: Seq<u8>) -> Assertion {
        self.assertions@[self.assertion_index(id)].assertion
    }

    /// The identifier is approved.
    pub open spec fn identifier_supported(&self, id: Seq<u8>) -> bool {
        exists|i: int| 0 <= i < self.cached_identifiers@.len() && self.cached_identifiers@[i]@ == id
    }

    /// The whitelist entry of a currency, if it has one.
    pub open spec fn currency_entry(&self, c: Seq<char>) -> Option<WhitelistedCurrency> {
        if exists|i: int| 0 <= i < self.cached_currencies@.len() && self.cached_currencies@[i].currency@ == c {
            Some(self.cached_currencies@[choose|i: int| 0 <= i < self.cached_currencies@.len() && self.cached_currencies@[i].currency@ == c].info)
        } else {
            None
        }
    }

    /// The currency is whitelisted.
    pub open spec fn currency_whitelisted(&self, c: Seq<char>) -> bool {
        self.currency_entry(c) is Some && self.currency_entry(c).unwrap().is_whitelisted
    }

    /// The minimum bond in a currency: `final_fee * SCALE / burned_bond_percentage`,
    /// the product capped at the largest `u128`; zero for a currency not whitelisted.
    pub open spec fn minimum_bond(&self, c: Seq<char>) -> int {
        if self.currency_whitelisted(c) {
            let p = self.currency_entry(c).unwrap().final_fee as int * SCALE as int;
            let capped = if p > u128::MAX { u128::MAX as int } else { p };
            capped / self.burned_bond_percentage as int
        } else {
            0
        }
    }

    /// The voting request that the assertion was escalated to, if any.
    pub open spec fn dispute_request(&self, id: Seq<u8>) -> Option<CryptoHash> {
        if exists|i: int| 0 <= i < self.dispute_requests@.len() && self.dispute_requests@[i].assertion_id@ == id {
            Some(self.dispute_requests@[choose|i: int| 0 <= i < self.dispute_requests@.len() && self.dispute_requests@[i].assertion_id@ == id].request_id)
        } else {
            None
        }
    }

    /// Everything but the assertions and the escalation links is as in `other`.
    pub open spec fn same_config(&self, other: &Self) -> bool {
        &&& self.owner == other.owner
        &&& self.default_currency == other.default_currency
        &&& self.default_liveness_ns == other.default_liveness_ns
        &&& self.burned_bond_percentage == other.burned_bond_percentage
        &&& self.cached_currencies == other.cached_currencies
        &&& self.cached_identifiers == other.cached_identifiers
        &&& self.voting_contract == other.voting_contract
    }

    /// Only the assertion at `idx` differs from `old`, and it keeps its id.
    pub open spec fn only_assertion_changed(&self, old: &Self, idx: int) -> bool {
        &&& self.same_config(old)
        &&& self.dispute_requests == old.dispute_requests
        &&& self.assertions@.len() == old.assertions@.len()
        &&& 0 <= idx < old.assertions@.len()
        &&& self.assertions@[idx].assertion_id == old.assertions@[idx].assertion_id
        &&& forall|j: int| 0 <= j < self.assertions@.len() && j != idx ==> self.assertions@[j] == old.assertions@[j]
    }

    /// A new registry; the default identifier is approved from the start.
    pub fn new(
        owner: AccountId,
        default_currency: AccountId,
        default_liveness_ns: Option<u64>,
        burned_bond_percentage: Option<u128>,
        voting_contract: Option<AccountId>,
    ) -> (r: Result<Self, OracleError>)
        ensures
            ({
                let burn = match burned_bond_percentage { Some(b) => b, None => BURNED_BOND_PERCENTAGE };
                &&& burn > SCALE ==> r == Err::<Self, OracleError>(OracleError::BurnedBondTooHigh)
                &&& burn == 0 ==> r == Err::<Self, OracleError>(OracleError::BurnedBondZero)
                &&& 0 < burn <= SCALE ==> r is Ok && ({
                    let o = r->Ok_0;
                    &&& o.wf()
                    &&& o.owner == owner
                    &&& o.default_currency == default_currency
                    &&& o.default_liveness_ns == match default_liveness_ns { Some(l) => l, None => DEFAULT_LIVENESS_NS }
                    &&& o.burned_bond_percentage == burn
                    &&& o.voting_contract == voting_contract
                    &&& o.cached_currencies@.len() == 0
                    &&& o.cached_identifiers@.len() == 1
                    &&& o.cached_identifiers@[0]@ == default_identifier_spec()
                    &&& o.assertions@.len() == 0
                    &&& o.dispute_requests@.len() == 0
                })
            }),
    {
        let liveness = match default_liveness_ns {
            Some(l) => l,
            None => DEFAULT_LIVENESS_NS,
        };
        let burn = match burned_bond_percentage {
            Some(b) => b,
            None => BURNED_BOND_PERCENTAGE,
        };
        if burn > SCALE {
            return Err(OracleError::BurnedBondTooHigh);
        }
        if burn == 0 {
            return Err(OracleError::BurnedBondZero);
        }
        let mut identifiers: Vec<Bytes32> = Vec::new();
        identifiers.push(Self::default_identifier_bytes());
        Ok(NestOptimisticOracle {
            owner,
            default_currency,
            default_liveness_ns: liveness,
            burned_bond_percentage: burn,
            cached_currencies: Vec::new(),
            cached_identifiers: identifiers,
            assertions: Vec::new(),
            voting_contract,
            dispute_requests: Vec::new(),
        })
    }

    /// `ASSERT_TRUTH` padded with zero bytes to 32.
    fn default_identifier_bytes() -> (r: Bytes32)
        ensures
            r@ == default_identifier_spec(),
    {
        let r: Bytes32 = [65, 83, 83, 69, 82, 84, 95, 84, 82, 85, 84, 72, 0, 0, 0, 0, 0, 0, 0, 0, 0, 0, 0, 0, 0, 0, 0, 0, 0, 0, 0, 0];
        assert(r@ =~= default_identifier_spec());
        r
    }
}

/// The bytes hashed into an assertion id: the claim, the bond, the time and
/// the liveness in fixed widths, the currency framed by its length, each
/// optional account tagged and framed, the identifier, and the caller framed
/// by its length. Every field can be read back, so distinct parameters give
/// distinct bytes.
pub open spec fn assertion_preimage(
    claim: Seq<u8>,
    bond: u128,
    time: u64,
    liveness: u64,
    currency: AccountId,
    callback_recipient: Option<AccountId>,
    escalation_manager: Option<AccountId>,
    identifier: Seq<u8>,
    caller: AccountId,
) -> Seq<u8> {
    claim + (le_bytes(bond as int, 16) + (le_bytes(time as int, 8) + (le_bytes(liveness as int, 8)
        + (framed_name(currency@) + (framed_opt_name(opt_account_view(callback_recipient))
        + (framed_opt_name(opt_account_view(escalation_manager)) + (identifier + framed_name(caller@))))))))
}

/// Assertion ids are collision-free up to the digest: two parameter tuples
/// with the same preimage are the same tuple, field by field.
pub proof fn lemma_assertion_preimage_injective(
    claim1: Seq<u8>, bond1: u128, time1: u64, liveness1: u64, currency1: AccountId,
    callback_recipient1: Option<AccountId>, escalation_manager1: Option<AccountId>, identifier1: Seq<u8>, caller1: AccountId,
    claim2: Seq<u8>, bond2: u128, time2: u64, liveness2: u64, currency2: AccountId,
    callback_recipient2: Option<AccountId>, escalation_manager2: Option<AccountId>, identifier2: Seq<u8>, caller2: AccountId,
)
    requires
        claim1.len() == 32,
        claim2.len() == 32,
        identifier1.len() == 32,
        identifier2.len() == 32,
        frameable(currency1@),
        frameable(currency2@),
        frameable(caller1@),
        frameable(caller2@),
        callback_recipient1 is Some ==> frameable(callback_recipient1->Some_0@),
        callback_recipient2 is Some ==> frameable(callback_recipient2->Some_0@),
        escalation_manager1 is Some ==> frameable(escalation_manager1->Some_0@),
        escalation_manager2 is Some ==> frameable(escalation_manager2->Some_0@),
        assertion_preimage(claim1, bond1, time1, liveness1, currency1, callback_recipient1, escalation_manager1, identifier1, caller1)
            == assertion_preimage(claim2, bond2, time2, liveness2, currency2, callback_recipient2, escalation_manager2, identifier2, caller2),
    ensures
        claim1 == claim2,
        bond1 == bond2,
        time1 == time2,
        liveness1 == liveness2,
        currency1@ == currency2@,
        opt_account_view(callback_recipient1) == opt_account_view(callback_recipient2),
        opt_account_view(escalation_manager1) == opt_account_view(escalation_manager2),
        identifier1 == identifier2,
        caller1@ == caller2@,
{
    let cb1 = opt_account_view(callback_recipient1);
    let cb2 = opt_account_view(callback_recipient2);
    let em1 = opt_account_view(escalation_manager1);
    let em2 = opt_account_view(escalation_manager2);
    let t7_1 = identifier1 + framed_name(caller1@);
    let t7_2 = identifier2 + framed_name(caller2@);
    let t6_1 = framed_opt_name(em1) + t7_1;
    let t6_2 = framed_opt_name(em2) + t7_2;
    let t5_1 = framed_opt_name(cb1) + t6_1;
    let t5_2 = framed_opt_name(cb2) + t6_2;
    let t4_1 = framed_name(currency1@) + t5_1;
    let t4_2 = framed_name(currency2@) + t5_2;
    let t3_1 = le_bytes(liveness1 as int, 8) + t4_1;
    let t3_2 = le_bytes(liveness2 as int, 8) + t4_2;
    let t2_1 = le_bytes(time1 as int, 8) + t3_1;
    let t2_2 = le_bytes(time2 as int, 8) + t3_2;
    let t1_1 = le_bytes(bond1 as int, 16) + t2_1;
    let t1_2 = le_bytes(bond2 as int, 16) + t2_2;
    assert(byte_range(8) == 18446744073709551616) by {
        reveal_with_fuel(byte_range, 9);
    }
    assert(byte_range(16) == 340282366920938463463374607431768211456) by {
        reveal_with_fuel(byte_range, 17);
    }
    lemma_split_concat(claim1, t1_1, claim2, t1_2);
    lemma_le_bytes_len(bond1 as int, 16);
    lemma_le_bytes_len(bond2 as int, 16);
    lemma_split_concat(le_bytes(bond1 as int, 16), t2_1, le_bytes(bond2 as int, 16), t2_2);
    lemma_le_bytes_injective(bond1 as int, bond2 as int, 16);
    lemma_le_bytes_len(time1 as int, 8);
    lemma_le_bytes_len(time2 as int, 8);
    lemma_split_concat(le_bytes(time1 as int, 8), t3_1, le_bytes(time2 as int, 8), t3_2);
    lemma_le_bytes_injective(time1 as int, time2 as int, 8);
    lemma_le_bytes_len(liveness1 as int, 8);
    lemma_le_bytes_len(liveness2 as int, 8);
    lemma_split_concat(le_bytes(liveness1 as int, 8), t4_1, le_bytes(liveness2 as int, 8), t4_2);
    lemma_le_bytes_injective(liveness1 as int, liveness2 as int, 8);
    lemma_framed_name_prefix(currency1@, t5_1, currency2@, t5_2);
    lemma_framed_opt_name_prefix(cb1, t6_1, cb2, t6_2);
    lemma_framed_opt_name_prefix(em1, t7_1, em2, t7_2);
    lemma_split_concat(identifier1, framed_name(caller1@), identifier2, framed_name(caller2@));
    lemma_framed_name_prefix(caller1@, Seq::empty(), caller2@, Seq::empty());
    assert(framed_name(caller1@) + Seq::<u8>::empty() =~= framed_name(caller1@));
    assert(framed_name(caller2@) + Seq::<u8>::empty() =~= framed_name(caller2@));
}

/// The identifier an assertion is made under.
pub open spec fn identifier_or_default(identifier: Option<Bytes32>) -> Seq<u8> {
    match identifier {
        Some(i) => i@,
        None => default_identifier_spec(),
    }
}

impl NestOptimisticOracle {
    /// The position of the assertion with this id, if there is one.
    fn find_assertion(&self, id: &Bytes32) -> (r: Option<usize>)
        requires
            self.wf(),
        ensures
            match r {
                Some(i) => i < self.assertions@.len() && self.assertions@[i as int].assertion_id@ == id@
                    && self.has_assertion(id@) && self.assertion_index(id@) == i,
                None => !self.has_assertion(id@),
            },
    {
        let mut i: usize = 0;
        while i < self.assertions.len()
            invariant
                self.wf(),
                i <= self.assertions@.len(),
                forall|j: int| 0 <= j < i ==> self.assertions@[j].assertion_id@ != id@,
            decreases self.assertions@.len() - i,
        {
            if bytes32_eq(&self.assertions[i].assertion_id, id) {
                proof {
                    let k = self.assertion_index(id@);
                    assert(self.has_assertion(id@));
                    if k < i {
                        assert(self.assertions@[k].assertion_id@ != self.assertions@[i as int].assertion_id@);
                    } else if i < k {
                        assert(self.assertions@[i as int].assertion_id@ != self.assertions@[k].assertion_id@);
                    }
                }
                return Some(i);
            }
            i = i + 1;
        }
        None
    }

    /// The position of a currency's whitelist entry, if there is one.
    fn find_currency(&self, currency: &AccountId) -> (r: Option<usize>)
        requires
            self.wf(),
        ensures
            match r {
                Some(i) => i < self.cached_currencies@.len() && self.cached_currencies@[i as int].currency@ == currency@
                    && self.currency_entry(currency@) == Some(self.cached_currencies@[i as int].info),
                None => self.currency_entry(currency@) is None,
            },
    {
        let mut i: usize = 0;
        while i < self.cached_currencies.len()
            invariant
                self.wf(),
                i <= self.cached_currencies@.len(),
                forall|j: int| 0 <= j < i ==> self.cached_currencies@[j].currency@ != currency@,
            decreases self.cached_currencies@.len() - i,
        {
            if self.cached_currencies[i].currency.eq(currency) {
                proof {
                    let c = self.cached_currencies@;
                    assert(exists|k: int| 0 <= k < c.len() && c[k].currency@ == currency@) by {
                        assert(c[i as int].currency@ == currency@);
                    }
                    let k = choose|k: int| 0 <= k < c.len() && c[k].currency@ == currency@;
                    if k < i {
                        assert(c[k].currency@ != c[i as int].currency@);
                    } else if i < k {
                        assert(c[i as int].currency@ != c[k].currency@);
                    }
                }
                return Some(i);
            }
            i = i + 1;
        }
        None
    }

    /// Whether an identifier is approved.
    pub fn is_identifier_supported(&self, identifier: Bytes32) -> (r: bool)
        ensures
            r == self.identifier_supported(identifier@),
    {
        let mut i: usize = 0;
        while i < self.cached_identifiers.len()
            invariant
                i <= self.cached_identifiers@.len(),
                forall|j: int| 0 <= j < i ==> self.cached_identifiers@[j]@ != identifier@,
            decreases self.cached_identifiers@.len() - i,
        {
            if bytes32_eq(&self.cached_identifiers[i], &identifier) {
                return true;
            }
            i = i + 1;
        }
        false
    }

    /// Whether a currency is whitelisted.
    pub fn is_currency_whitelisted(&self, currency: AccountId) -> (r: bool)
        requires
            self.wf(),
        ensures
            r == self.currency_whitelisted(currency@),
    {
        match self.find_currency(&currency) {
            Some(i) => self.cached_currencies[i].info.is_whitelisted,
            None => false,
        }
    }

    /// The minimum bond in a currency; zero for a currency not whitelisted.
    pub fn get_minimum_bond(&self, currency: AccountId) -> (r: u128)
        requires
            self.wf(),
        ensures
            r == self.minimum_bond(currency@),
    {
        match self.find_currency(&currency) {
            Some(i) => {
                if self.cached_currencies[i].info.is_whitelisted {
                    let fee = self.cached_currencies[i].info.final_fee;
                    let product = match fee.checked_mul(SCALE) {
                        Some(p) => p,
                        None => u128::MAX,
                    };
                    product / self.burned_bond_percentage
                } else {
                    0
                }
            },
            None => 0,
        }
    }

    /// The content-derived id of an assertion: Keccak-256 over the framed
    /// claim, bond, time, liveness, currency, optional callback recipient and
    /// escalation manager, identifier and caller (see `assertion_preimage`).
    pub fn get_assertion_id(
        claim: &Bytes32,
        bond: u128,
        time: u64,
        liveness: u64,
        currency: &AccountId,
        callback_recipient: &Option<AccountId>,
        escalation_manager: &Option<AccountId>,
        identifier: &Bytes32,
        caller: &AccountId,
    ) -> (r: Bytes32)
        ensures
            r@ == keccak256_of(assertion_preimage(claim@, bond, time, liveness, *currency, *callback_recipient, *escalation_manager, identifier@, *caller)),
    {
        let mut data: Vec<u8> = Vec::new();
        push_bytes(&mut data, claim.as_slice());
        push_u128_le(&mut data, bond);
        push_u64_le(&mut data, time);
        push_u64_le(&mut data, liveness);
        push_framed_name(&mut data, currency);
        push_framed_opt_name(&mut data, callback_recipient);
        push_framed_opt_name(&mut data, escalation_manager);
        push_bytes(&mut data, identifier.as_slice());
        push_framed_name(&mut data, caller);
        assert(data@ =~= assertion_preimage(claim@, bond, time, liveness, *currency, *callback_recipient, *escalation_manager, identifier@, *caller));
        keccak256(&data)
    }

    /// Why an assertion would be refused, if it would be.
    pub open spec fn assert_check(&self, id: Seq<u8>, identifier: Seq<u8>, currency: Seq<char>, bond: u128, time: u64, liveness: u64) -> Option<OracleError> {
        if self.has_assertion(id) {
            Some(OracleError::AssertionAlreadyExists)
        } else if !self.identifier_supported(identifier) {
            Some(OracleError::UnsupportedIdentifier)
        } else if !self.currency_whitelisted(currency) {
            Some(OracleError::UnsupportedCurrency)
        } else if bond < self.minimum_bond(currency) {
            Some(OracleError::BondTooLow)
        } else if time as int + liveness as int > u64::MAX {
            Some(OracleError::ExpirationOverflow)
        } else {
            None
        }
    }

    /// The id an assertion gets: the override if given, else the digest of its parameters.
    pub open spec fn derived_assertion_id(
        claim: Bytes32,
        bond: u128,
        time: u64,
        liveness: u64,
        currency: AccountId,
        callback_recipient: Option<AccountId>,
        escalation_manager: Option<AccountId>,
        identifier: Seq<u8>,
        caller: AccountId,
        assertion_id_override: Option<Bytes32>,
    ) -> Seq<u8> {
        match assertion_id_override {
            Some(o) => o@,
            None => keccak256_of(assertion_preimage(claim@, bond, time, liveness, currency, callback_recipient, escalation_manager, identifier, caller)),
        }
    }

    /// `new` is `old` after an assertion call with these arguments returned `r`.
    pub open spec fn asserted(
        old: Self,
        new: Self,
        claim: Bytes32,
        asserter: AccountId,
        callback_recipient: Option<AccountId>,
        escalation_manager: Option<AccountId>,
        liveness_ns: Option<u64>,
        assertion_time_ns: Option<u64>,
        currency: AccountId,
        bond: u128,
        identifier: Option<Bytes32>,
        domain_id: Option<Bytes32>,
        assertion_id_override: Option<Bytes32>,
        caller: AccountId,
        now: u64,
        r: Result<Bytes32, OracleError>,
    ) -> bool {
        let time = match assertion_time_ns { Some(t) => t, None => now };
        let liveness = match liveness_ns { Some(l) => l, None => old.default_liveness_ns };
        let ident = identifier_or_default(identifier);
        let id = Self::derived_assertion_id(claim, bond, time, liveness, currency, callback_recipient, escalation_manager, ident, caller, assertion_id_override);
        match old.assert_check(id, ident, currency@, bond, time, liveness) {
            Some(e) => r == Err::<Bytes32, OracleError>(e) && new == old,
            None => {
                &&& r is Ok
                &&& r->Ok_0@ == id
                &&& new.same_config(&old)
                &&& new.dispute_requests == old.dispute_requests
                &&& new.assertions@.len() == old.assertions@.len() + 1
                &&& new.assertions@.drop_last() == old.assertions@
                &&& new.assertions@.last().assertion_id == r->Ok_0
                &&& ({
                    let a = new.assertions@.last().assertion;
                    &&& a.escalation_manager_settings == (EscalationManagerSettings {
                        arbitrate_via_escalation_manager: false,
                        discard_oracle: false,
                        validate_disputers: false,
                        asserting_caller: caller,
                        escalation_manager,
                    })
                    &&& a.asserter == asserter
                    &&& a.assertion_time_ns == time
                    &&& !a.settled && !a.settlement_pending && !a.settlement_in_flight
                    &&& a.currency == currency
                    &&& a.expiration_time_ns == time + liveness
                    &&& !a.settlement_resolution && !a.pending_settlement_resolution
                    &&& a.domain_id@ == match domain_id { Some(d) => d@, None => Seq::new(32, |i: int| 0u8) }
                    &&& a.identifier@ == ident
                    &&& a.bond == bond
                    &&& a.callback_recipient == callback_recipient
                    &&& a.disputer is None
                    &&& a.pending_payout is None
                })
            },
        }
    }

    /// Records a bonded assertion; the bond has already reached the oracle.
    ///
    /// The time defaults to `now` and the liveness to the default liveness.
    /// The identifier must be approved, the currency whitelisted, the bond at
    /// least the currency's minimum, and the id not taken.
    pub fn internal_assert_truth(
        &mut self,
        claim: Bytes32,
        asserter: AccountId,
        callback_recipient: Option<AccountId>,
        escalation_manager: Option<AccountId>,
        liveness_ns: Option<u64>,
        assertion_time_ns: Option<u64>,
        currency: AccountId,
        bond: u128,
        identifier: Option<Bytes32>,
        domain_id: Option<Bytes32>,
        assertion_id_override: Option<Bytes32>,
        caller: AccountId,
        now: u64,
    ) -> (r: Result<Bytes32, OracleError>)
        requires
            old(self).wf(),
        ensures
            final(self).wf(),
            Self::asserted(*old(self), *final(self), claim, asserter, callback_recipient, escalation_manager,
                liveness_ns, assertion_time_ns, currency, bond, identifier, domain_id, assertion_id_override, caller, now, r),
    {
        let time = match assertion_time_ns {
            Some(t) => t,
            None => now,
        };
        let liveness = match liveness_ns {
            Some(l) => l,
            None => self.default_liveness_ns,
        };
        let identifier = match identifier {
            Some(i) => i,
            None => Self::default_identifier_bytes(),
        };
        let domain_id = match domain_id {
            Some(d) => d,
            None => {
                let d = [0u8; 32];
                assert(d@ =~= Seq::new(32, |i: int| 0u8));
                d
            },
        };
        let assertion_id = match assertion_id_override {
            Some(o) => o,
            None => Self::get_assertion_id(&claim, bond, time, liveness, &currency, &callback_recipient, &escalation_manager, &identifier, &caller),
        };
        if self.find_assertion(&assertion_id).is_some() {
            return Err(OracleError::AssertionAlreadyExists);
        }
        if !self.is_identifier_supported(identifier) {
            return Err(OracleError::UnsupportedIdentifier);
        }
        if !self.is_currency_whitelisted(currency.clone()) {
            return Err(OracleError::UnsupportedCurrency);
        }
        let min_bond = self.get_minimum_bond(currency.clone());
        if bond < min_bond {
            return Err(OracleError::BondTooLow);
        }
        if time > u64::MAX - liveness {
            return Err(OracleError::ExpirationOverflow);
        }
        let assertion = Assertion {
            escalation_manager_settings: EscalationManagerSettings {
                arbitrate_via_escalation_manager: false,
                discard_oracle: false,
                validate_disputers: false,
                asserting_caller: caller,
                escalation_manager,
            },
            asserter,
            assertion_time_ns: time,
            settled: false,
            settlement_pending: false,
            settlement_in_flight: false,
            currency,
            expiration_time_ns: time + liveness,
            settlement_resolution: false,
            pending_settlement_resolution: false,
            domain_id,
            identifier,
            bond,
            callback_recipient,
            disputer: None,
            pending_payout: None,
        };
        let ghost before = self.assertions@;
        self.assertions.push(AssertionEntry { assertion_id, assertion });
        proof {
            assert(self.assertions@.drop_last() =~= before);
        }
        Ok(assertion_id)
    }
}

/// The bytes without their trailing zero bytes.
pub open spec fn trim_trailing_zeros(b: Seq<u8>) -> Seq<u8>
    decreases b.len(),
{
    if b.len() > 0 && b.last() == 0 {
        trim_trailing_zeros(b.drop_last())
    } else {
        b
    }
}

/// The text that lossy UTF-8 decoding makes of a byte string.
pub uninterp spec fn lossy_utf8_of(b: Seq<u8>) -> Seq<char>;

/// Relies on `String::from_utf8_lossy`: the text depends on the bytes alone,
/// and bytes that are valid UTF-8 are decoded as they are.
#[verifier::external_body]
fn utf8_lossy(b: &Vec<u8>) -> (r: String)
    ensures
        r@ == lossy_utf8_of(b@),
        vstd::utf8::valid_utf8(b@) ==> r@ == vstd::utf8::decode_utf8(b@),
{
    String::from_utf8_lossy(b).to_string()
}

/// The text of an identifier: its bytes up to the trailing zero padding, decoded as UTF-8.
fn identifier_text(identifier: &Bytes32) -> (r: String)
    ensures
        r@ == lossy_utf8_of(trim_trailing_zeros(identifier@)),
        vstd::utf8::valid_utf8(trim_trailing_zeros(identifier@)) ==> r@ == vstd::utf8::decode_utf8(
            trim_trailing_zeros(identifier@),
        ),
{
    let mut n: usize = 32;
    assert(identifier@.subrange(0, 32) =~= identifier@);
    while n > 0 && identifier[n - 1] == 0
        invariant
            n <= 32,
            identifier@.len() == 32,
            trim_trailing_zeros(identifier@.subrange(0, n as int)) == trim_trailing_zeros(identifier@),
        decreases n,
    {
        assert(identifier@.subrange(0, n as int).drop_last() =~= identifier@.subrange(0, n - 1));
        n = n - 1;
    }
    let mut bytes: Vec<u8> = Vec::new();
    let mut i: usize = 0;
    while i < n
        invariant
            i <= n <= 32,
            identifier@.len() == 32,
            bytes@ == identifier@.subrange(0, i as int),
        decreases n - i,
    {
        bytes.push(identifier[i]);
        assert(identifier@.subrange(0, i + 1) =~= identifier@.subrange(0, i as int).push(identifier@[i as int]));
        i = i + 1;
    }
    utf8_lossy(&bytes)
}

/// The assertion records a dispute by `disputer`.
pub open spec fn with_disputer(a: Assertion, disputer: AccountId) -> Assertion {
    Assertion { disputer: Some(disputer), ..a }
}

impl NestOptimisticOracle {
    /// Why a dispute would be refused, if it would be.
    pub open spec fn dispute_check(&self, id: Seq<u8>, currency: Seq<char>, bond_amount: u128, now: u64) -> Option<OracleError> {
        if !self.has_assertion(id) {
            Some(OracleError::AssertionNotFound)
        } else if self.assertion(id).disputer is Some {
            Some(OracleError::AlreadyDisputed)
        } else if self.assertion(id).expiration_time_ns <= now {
            Some(OracleError::AssertionExpired)
        } else if self.assertion(id).currency@ != currency {
            Some(OracleError::WrongCurrency)
        } else if bond_amount != self.assertion(id).bond {
            Some(OracleError::DisputeBondMismatch)
        } else {
            None
        }
    }

    /// `new` is `old` after a dispute call with these arguments returned `r`.
    pub open spec fn disputed(
        old: Self,
        new: Self,
        assertion_id: Bytes32,
        disputer: AccountId,
        currency: AccountId,
        bond_amount: u128,
        now: u64,
        r: Result<Option<DvmPriceRequest>, OracleError>,
    ) -> bool {
        match old.dispute_check(assertion_id@, currency@, bond_amount, now) {
            Some(e) => r is Err && r->Err_0 == e && new == old,
            None => {
                let idx = old.assertion_index(assertion_id@);
                let a = old.assertions@[idx].assertion;
                &&& r is Ok
                &&& new.only_assertion_changed(&old, idx)
                &&& new.assertions@[idx].assertion == with_disputer(a, disputer)
                &&& (r->Ok_0 is Some) == (old.voting_contract is Some)
                &&& r->Ok_0 is Some ==> ({
                    let q = r->Ok_0->Some_0;
                    &&& q.voting_contract == old.voting_contract->Some_0
                    &&& q.timestamp == now
                    &&& q.ancillary_data@ == assertion_id@
                    &&& q.assertion_id == assertion_id
                    &&& q.identifier@ == lossy_utf8_of(trim_trailing_zeros(a.identifier@))
                    &&& vstd::utf8::valid_utf8(trim_trailing_zeros(a.identifier@)) ==> q.identifier@
                        == vstd::utf8::decode_utf8(trim_trailing_zeros(a.identifier@))
                })
            },
        }
    }

    /// Records a dispute; the dispute bond has already reached the oracle.
    ///
    /// The assertion must be undisputed and unexpired at `now`, and the bond
    /// must be in the assertion's currency and equal its bond exactly. When a
    /// voting engine is configured, the returned request escalates the dispute
    /// to it, with the assertion id as ancillary data.
    pub fn internal_dispute_assertion(
        &mut self,
        assertion_id: Bytes32,
        disputer: AccountId,
        currency: AccountId,
        bond_amount: u128,
        caller: AccountId,
        now: u64,
    ) -> (r: Result<Option<DvmPriceRequest>, OracleError>)
        requires
            old(self).wf(),
        ensures
            final(self).wf(),
            Self::disputed(*old(self), *final(self), assertion_id, disputer, currency, bond_amount, now, r),
    {
        let i = match self.find_assertion(&assertion_id) {
            Some(i) => i,
            None => return Err(OracleError::AssertionNotFound),
        };
        if self.assertions[i].assertion.disputer.is_some() {
            return Err(OracleError::AlreadyDisputed);
        }
        if self.assertions[i].assertion.expiration_time_ns <= now {
            return Err(OracleError::AssertionExpired);
        }
        if !self.assertions[i].assertion.currency.eq(&currency) {
            return Err(OracleError::WrongCurrency);
        }
        if bond_amount != self.assertions[i].assertion.bond {
            return Err(OracleError::DisputeBondMismatch);
        }
        let identifier = self.assertions[i].assertion.identifier;
        let entry = &mut self.assertions[i];
        entry.assertion.disputer = Some(disputer);
        match &self.voting_contract {
            Some(voting_contract) => {
                let mut ancillary_data: Vec<u8> = Vec::new();
                push_bytes(&mut ancillary_data, assertion_id.as_slice());
                Ok(Some(DvmPriceRequest {
                    voting_contract: voting_contract.clone(),
                    identifier: identifier_text(&identifier),
                    timestamp: now,
                    ancillary_data,
                    assertion_id,
                }))
            },
            None => Ok(None),
        }
    }

    /// The position of the escalation link of an assertion, if there is one.
    fn find_link(&self, id: &Bytes32) -> (r: Option<usize>)
        ensures
            match r {
                Some(i) => i < self.dispute_requests@.len() && self.dispute_requests@[i as int].assertion_id@ == id@,
                None => forall|j: int| 0 <= j < self.dispute_requests@.len() ==> self.dispute_requests@[j].assertion_id@ != id@,
            },
    {
        let mut i: usize = 0;
        while i < self.dispute_requests.len()
            invariant
                i <= self.dispute_requests@.len(),
                forall|j: int| 0 <= j < i ==> self.dispute_requests@[j].assertion_id@ != id@,
            decreases self.dispute_requests@.len() - i,
        {
            if bytes32_eq(&self.dispute_requests[i].assertion_id, id) {
                return Some(i);
            }
            i = i + 1;
        }
        None
    }

    /// Continuation of an escalation: stores the voting request id that the
    /// voting engine returned, or nothing when the escalation failed, which
    /// leaves the dispute to be resolved by the owner.
    pub fn on_dvm_request_complete(&mut self, assertion_id: Bytes32, request_id: Option<CryptoHash>)
        requires
            old(self).wf(),
        ensures
            final(self).wf(),
            final(self).same_config(old(self)),
            final(self).assertions == old(self).assertions,
            match request_id {
                None => final(self).dispute_requests == old(self).dispute_requests,
                Some(rid) => {
                    &&& final(self).dispute_request(assertion_id@) == Some(rid)
                    &&& forall|x: Seq<u8>| x != assertion_id@ ==> final(self).dispute_request(x) == old(self).dispute_request(x)
                },
            },
    {
        let rid = match request_id {
            Some(r) => r,
            None => return,
        };
        let found = self.find_link(&assertion_id);
        let i: usize = match found {
            Some(k) => k,
            None => self.dispute_requests.len(),
        };
        let ghost old_links = self.dispute_requests@;
        if found.is_some() {
            self.dispute_requests[i].request_id = rid;
        } else {
            self.dispute_requests.push(DisputeLink { assertion_id, request_id: rid });
        }
        proof {
            let links = self.dispute_requests@;
            assert forall|a: int, b: int| 0 <= a < b < links.len() implies links[a].assertion_id@ != links[b].assertion_id@ by {
                if b < old_links.len() {
                    assert(links[a].assertion_id == old_links[a].assertion_id);
                    assert(links[b].assertion_id == old_links[b].assertion_id);
                } else {
                    assert(links[a] == old_links[a]);
                }
            }
            assert(links[i as int].assertion_id@ == assertion_id@);
            assert(exists|k: int| 0 <= k < links.len() && links[k].assertion_id@ == assertion_id@);
            let k = choose|k: int| 0 <= k < links.len() && links[k].assertion_id@ == assertion_id@;
            assert(k == i) by {
                if k < i {
                    assert(links[k].assertion_id@ != links[i as int].assertion_id@);
                } else if i < k {
                    assert(links[i as int].assertion_id@ != links[k].assertion_id@);
                }
            }
            assert forall|x: Seq<u8>| x != assertion_id@ implies self.dispute_request(x) == old(self).dispute_request(x) by {
                if exists|k: int| 0 <= k < old_links.len() && old_links[k].assertion_id@ == x {
                    let k = choose|k: int| 0 <= k < old_links.len() && old_links[k].assertion_id@ == x;
                    assert(links[k] == old_links[k]);
                    let k2 = choose|k: int| 0 <= k < links.len() && links[k].assertion_id@ == x;
                    assert(k2 == k) by {
                        if k2 < k {
                            assert(links[k2].assertion_id@ != links[k].assertion_id@);
                        } else if k < k2 {
                            assert(links[k].assertion_id@ != links[k2].assertion_id@);
                        }
                    }
                } else {
                    assert forall|k: int| 0 <= k < links.len() implies links[k].assertion_id@ != x by {
                        if k != i {
                            assert(links[k] == old_links[k]);
                        }
                    }
                }
            }
        }
    }
}

/// The fee kept from a disputed bond: `bond * burned_bond_percentage / SCALE`.
pub open spec fn oracle_fee_of(bond: u128, burn: u128) -> int {
    bond as int * burn as int / SCALE as int
}

/// Who receives the bonds on settling with `resolution`.
pub open spec fn payout_recipient(a: Assertion, resolution: bool) -> AccountId {
    match a.disputer {
        Some(d) => if resolution { a.asserter } else { d },
        None => a.asserter,
    }
}

/// The amount paid out on settlement: the bond when undisputed; both bonds
/// less the fee when disputed.
pub open spec fn payout_amount(a: Assertion, burn: u128) -> int {
    if a.disputer is Some {
        2 * a.bond - oracle_fee_of(a.bond, burn)
    } else {
        a.bond as int
    }
}

/// `p` is the payout of assertion `a`, under `id`, settled with `resolution`.
pub open spec fn payout_matches(p: SettlementPayout, id: Seq<u8>, a: Assertion, resolution: bool, burn: u128, owner: AccountId) -> bool {
    &&& p.assertion_id@ == id
    &&& p.currency == a.currency
    &&& p.recipient == payout_recipient(a, resolution)
    &&& p.amount == payout_amount(a, burn)
    &&& p.disputed == (a.disputer is Some)
    &&& p.fee_recipient == owner
    &&& p.oracle_fee == if a.disputer is Some { oracle_fee_of(a.bond, burn) } else { 0 }
}

/// The assertion once the payout `p` with `resolution` has been started.
pub open spec fn payout_started(a: Assertion, resolution: bool, p: SettlementPayout) -> Assertion {
    Assertion {
        settlement_pending: true,
        settlement_in_flight: true,
        pending_settlement_resolution: resolution,
        pending_payout: Some(p),
        ..a
    }
}

/// The assertion once its pending payout has been confirmed.
pub open spec fn payout_confirmed(a: Assertion) -> Assertion {
    Assertion {
        settlement_pending: false,
        settlement_in_flight: false,
        settled: true,
        settlement_resolution: a.pending_settlement_resolution,
        pending_payout: None,
        ..a
    }
}

/// `bond * burn / SCALE`, computed without overflow.
fn fee_share(bond: u128, burn: u128) -> (r: u128)
    requires
        burn <= SCALE,
    ensures
        r == oracle_fee_of(bond, burn),
        r <= bond,
{
    let q = bond / SCALE;
    let rem = bond % SCALE;
    proof {
        lemma_fundamental_div_mod(bond as int, SCALE as int);
        assert(q * burn <= q * SCALE) by (nonlinear_arith)
            requires burn <= SCALE;
        assert(rem * burn < SCALE * SCALE) by (nonlinear_arith)
            requires rem < SCALE, burn <= SCALE;
        assert(bond as int * burn as int == (rem * burn) as int + (q * burn) as int * SCALE)
            by (nonlinear_arith)
            requires bond == SCALE * q + rem;
        lemma_hoist_over_denominator((rem * burn) as int, (q * burn) as int, SCALE as nat);
        assert(bond as int * burn as int / SCALE as int <= bond as int * SCALE as int / SCALE as int) by (nonlinear_arith)
            requires burn <= SCALE;
    }
    q * burn + rem * burn / SCALE
}

impl NestOptimisticOracle {
    /// The payout of an assertion settled with `resolution`, or `None` when
    /// the amount does not fit in a `u128`.
    fn compute_settlement_payout(&self, assertion_id: &Bytes32, a: &Assertion, resolution: bool) -> (r: Option<SettlementPayout>)
        requires
            self.wf(),
        ensures
            (r is Some) == (payout_amount(*a, self.burned_bond_percentage) <= u128::MAX),
            r is Some ==> payout_matches(r->Some_0, assertion_id@, *a, resolution, self.burned_bond_percentage, self.owner),
    {
        match &a.disputer {
            Some(disputer) => {
                let fee = fee_share(a.bond, self.burned_bond_percentage);
                if a.bond > u128::MAX - (a.bond - fee) {
                    return None;
                }
                let recipient = if resolution { a.asserter.clone() } else { disputer.clone() };
                Some(SettlementPayout {
                    assertion_id: *assertion_id,
                    currency: a.currency.clone(),
                    recipient,
                    amount: a.bond + (a.bond - fee),
                    disputed: true,
                    fee_recipient: self.owner.clone(),
                    oracle_fee: fee,
                })
            },
            None => Some(SettlementPayout {
                assertion_id: *assertion_id,
                currency: a.currency.clone(),
                recipient: a.asserter.clone(),
                amount: a.bond,
                disputed: false,
                fee_recipient: self.owner.clone(),
                oracle_fee: 0,
            }),
        }
    }

    /// Why starting a payout for an existing assertion would be refused, if it would be.
    pub open spec fn start_check(&self, id: Seq<u8>) -> Option<OracleError> {
        if self.assertion(id).settled {
            Some(OracleError::AlreadySettled)
        } else if self.assertion(id).settlement_pending {
            Some(OracleError::SettlementPending)
        } else if payout_amount(self.assertion(id), self.burned_bond_percentage) > u128::MAX {
            Some(OracleError::PayoutOverflow)
        } else {
            None
        }
    }

    /// `new` is `old` after a payout with `resolution` was started (or refused) with result `r`.
    pub open spec fn payout_start(old: Self, new: Self, id: Seq<u8>, resolution: bool, r: Result<SettlementPayout, OracleError>) -> bool {
        match old.start_check(id) {
            Some(e) => r is Err && r->Err_0 == e && new == old,
            None => {
                let idx = old.assertion_index(id);
                let a = old.assertions@[idx].assertion;
                &&& r is Ok
                &&& payout_matches(r->Ok_0, id, a, resolution, old.burned_bond_percentage, old.owner)
                &&& new.only_assertion_changed(&old, idx)
                &&& new.assertions@[idx].assertion == payout_started(a, resolution, r->Ok_0)
            },
        }
    }

    /// Starts the payout saga: marks the payout pending and in flight, then
    /// hands back the transfer to dispatch.
    fn start_settlement_payout(&mut self, i: usize, resolution: bool) -> (r: Result<SettlementPayout, OracleError>)
        requires
            old(self).wf(),
            i < old(self).assertions@.len(),
        ensures
            final(self).wf(),
            Self::payout_start(*old(self), *final(self), old(self).assertions@[i as int].assertion_id@, resolution, r),
    {
        let ghost id = self.assertions@[i as int].assertion_id@;
        proof {
            self.lemma_assertion_index(i as int);
        }
        if self.assertions[i].assertion.settled {
            return Err(OracleError::AlreadySettled);
        }
        if self.assertions[i].assertion.settlement_pending {
            return Err(OracleError::SettlementPending);
        }
        let payout = match self.compute_settlement_payout(&self.assertions[i].assertion_id, &self.assertions[i].assertion, resolution) {
            Some(p) => p,
            None => return Err(OracleError::PayoutOverflow),
        };
        let record = payout.duplicate();
        let entry = &mut self.assertions[i];
        entry.assertion.settlement_pending = true;
        entry.assertion.settlement_in_flight = true;
        entry.assertion.pending_settlement_resolution = resolution;
        entry.assertion.pending_payout = Some(record);
        Ok(payout)
    }

    proof fn lemma_assertion_index(&self, i: int)
        requires
            self.wf(),
            0 <= i < self.assertions@.len(),
        ensures
            self.has_assertion(self.assertions@[i].assertion_id@),
            self.assertion_index(self.assertions@[i].assertion_id@) == i,
    {
        let id = self.assertions@[i].assertion_id@;
        assert(self.has_assertion(id));
        let k = self.assertion_index(id);
        if k < i {
            assert(self.assertions@[k].assertion_id@ != self.assertions@[i].assertion_id@);
        } else if i < k {
            assert(self.assertions@[i].assertion_id@ != self.assertions@[k].assertion_id@);
        }
    }

    /// Why settling would be refused, if it would be.
    pub open spec fn settle_check(&self, id: Seq<u8>, now: u64) -> Option<OracleError> {
        if !self.has_assertion(id) {
            Some(OracleError::AssertionNotFound)
        } else if self.assertion(id).settled {
            Some(OracleError::AlreadySettled)
        } else if self.assertion(id).settlement_pending {
            Some(OracleError::SettlementPending)
        } else if self.assertion(id).disputer is None {
            if self.assertion(id).expiration_time_ns > now {
                Some(OracleError::AssertionNotExpired)
            } else {
                None
            }
        } else if self.dispute_request(id) is None {
            Some(OracleError::NotEscalated)
        } else if self.voting_contract is None {
            Some(OracleError::VotingNotConfigured)
        } else {
            None
        }
    }

    /// `new` is `old` after a settle call returned `r`.
    pub open spec fn settle_post(old: Self, new: Self, id: Seq<u8>, now: u64, r: Result<SettleStep, OracleError>) -> bool {
        match old.settle_check(id, now) {
            Some(e) => r is Err && r->Err_0 == e && new == old,
            None => if old.assertion(id).disputer is None {
                let idx = old.assertion_index(id);
                let a = old.assertions@[idx].assertion;
                &&& r is Ok
                &&& r->Ok_0 is Payout
                &&& payout_matches(r->Ok_0->Payout_0, id, a, true, old.burned_bond_percentage, old.owner)
                &&& new.only_assertion_changed(&old, idx)
                &&& new.assertions@[idx].assertion == payout_started(a, true, r->Ok_0->Payout_0)
            } else {
                &&& r is Ok
                &&& r->Ok_0 is QueryPrice
                &&& r->Ok_0->voting_contract == old.voting_contract->Some_0
                &&& r->Ok_0->request_id == old.dispute_request(id)->Some_0
                &&& r->Ok_0->QueryPrice_assertion_id@ == id
                &&& new == old
            },
        }
    }

    /// The voting request an assertion was escalated to, if any.
    pub fn get_dispute_request(&self, assertion_id: Bytes32) -> (r: Option<CryptoHash>)
        requires
            self.wf(),
        ensures
            r == self.dispute_request(assertion_id@),
    {
        match self.find_link(&assertion_id) {
            Some(i) => {
                proof {
                    let links = self.dispute_requests@;
                    let k = choose|k: int| 0 <= k < links.len() && links[k].assertion_id@ == assertion_id@;
                    if k < i {
                        assert(links[k].assertion_id@ != links[i as int].assertion_id@);
                    } else if i < k {
                        assert(links[i as int].assertion_id@ != links[k].assertion_id@);
                    }
                }
                Some(self.dispute_requests[i].request_id)
            },
            None => None,
        }
    }

    /// Settles an assertion.
    ///
    /// Undisputed, it settles true once expired: the payout to the asserter
    /// starts. Disputed and escalated, the voting engine must be asked for its
    /// resolved price, which `on_dvm_price_received` takes.
    pub fn settle_assertion(&mut self, assertion_id: Bytes32, now: u64) -> (r: Result<SettleStep, OracleError>)
        requires
            old(self).wf(),
        ensures
            final(self).wf(),
            Self::settle_post(*old(self), *final(self), assertion_id@, now, r),
    {
        let i = match self.find_assertion(&assertion_id) {
            Some(i) => i,
            None => return Err(OracleError::AssertionNotFound),
        };
        if self.assertions[i].assertion.settled {
            return Err(OracleError::AlreadySettled);
        }
        if self.assertions[i].assertion.settlement_pending {
            return Err(OracleError::SettlementPending);
        }
        if self.assertions[i].assertion.disputer.is_none() {
            if self.assertions[i].assertion.expiration_time_ns > now {
                return Err(OracleError::AssertionNotExpired);
            }
            match self.start_settlement_payout(i, true) {
                Ok(p) => Ok(SettleStep::Payout(p)),
                Err(e) => Err(e),
            }
        } else {
            let request_id = match self.get_dispute_request(assertion_id) {
                Some(r) => r,
                None => return Err(OracleError::NotEscalated),
            };
            match &self.voting_contract {
                Some(v) => Ok(SettleStep::QueryPrice { voting_contract: v.clone(), request_id, assertion_id }),
                None => Err(OracleError::VotingNotConfigured),
            }
        }
    }
}

impl NestOptimisticOracle {
    /// Continuation of a price query: `price` is `None` when the query failed,
    /// `Some(None)` when the voting engine has not resolved yet. A resolved
    /// price settles the assertion true when it is at least `NUMERICAL_TRUE`, that is 1.
    pub fn on_dvm_price_received(&mut self, assertion_id: Bytes32, price: Option<Option<i128>>) -> (r: Result<SettlementPayout, OracleError>)
        requires
            old(self).wf(),
        ensures
            final(self).wf(),
            !old(self).has_assertion(assertion_id@) ==> r is Err && r->Err_0 == OracleError::AssertionNotFound && *final(self) == *old(self),
            old(self).has_assertion(assertion_id@) ==> match price {
                None => r is Err && r->Err_0 == OracleError::DvmQueryFailed && *final(self) == *old(self),
                Some(None) => r is Err && r->Err_0 == OracleError::DvmNotResolved && *final(self) == *old(self),
                Some(Some(p)) => Self::payout_start(*old(self), *final(self), assertion_id@, p >= NUMERICAL_TRUE, r),
            },
    {
        let i = match self.find_assertion(&assertion_id) {
            Some(i) => i,
            None => return Err(OracleError::AssertionNotFound),
        };
        match price {
            Some(Some(p)) => self.start_settlement_payout(i, p >= NUMERICAL_TRUE),
            Some(None) => Err(OracleError::DvmNotResolved),
            None => Err(OracleError::DvmQueryFailed),
        }
    }

    /// Why a manual resolution would be refused, if it would be.
    pub open spec fn manual_check(&self, caller: Seq<char>, id: Seq<u8>) -> Option<OracleError> {
        if caller != self.owner@ {
            Some(OracleError::Unauthorized)
        } else if !self.has_assertion(id) {
            Some(OracleError::AssertionNotFound)
        } else if self.assertion(id).settled {
            Some(OracleError::AlreadySettled)
        } else if self.assertion(id).settlement_pending {
            Some(OracleError::SettlementPending)
        } else if self.assertion(id).disputer is None {
            Some(OracleError::NotDisputed)
        } else {
            None
        }
    }

    /// The owner's resolution of a dispute whose escalation failed or was
    /// never configured: starts the payout with `resolution` (true: the
    /// asserter wins).
    pub fn resolve_disputed_assertion(&mut self, caller: AccountId, assertion_id: Bytes32, resolution: bool) -> (r: Result<SettlementPayout, OracleError>)
        requires
            old(self).wf(),
        ensures
            final(self).wf(),
            match old(self).manual_check(caller@, assertion_id@) {
                Some(e) => r is Err && r->Err_0 == e && *final(self) == *old(self),
                None => Self::payout_start(*old(self), *final(self), assertion_id@, resolution, r),
            },
    {
        if !caller.eq(&self.owner) {
            return Err(OracleError::Unauthorized);
        }
        let i = match self.find_assertion(&assertion_id) {
            Some(i) => i,
            None => return Err(OracleError::AssertionNotFound),
        };
        if self.assertions[i].assertion.settled {
            return Err(OracleError::AlreadySettled);
        }
        if self.assertions[i].assertion.settlement_pending {
            return Err(OracleError::SettlementPending);
        }
        if self.assertions[i].assertion.disputer.is_none() {
            return Err(OracleError::NotDisputed);
        }
        self.start_settlement_payout(i, resolution)
    }

    /// Why a retry would be refused, if it would be.
    pub open spec fn retry_check(&self, id: Seq<u8>) -> Option<OracleError> {
        if !self.has_assertion(id) {
            Some(OracleError::AssertionNotFound)
        } else if self.assertion(id).settled {
            Some(OracleError::AlreadySettled)
        } else if !self.assertion(id).settlement_pending {
            Some(OracleError::SettlementNotPending)
        } else if self.assertion(id).settlement_in_flight {
            Some(OracleError::PayoutInFlight)
        } else {
            None
        }
    }

    /// `new` is `old` after a retry returned `r`.
    pub open spec fn retry_post(old: Self, new: Self, id: Seq<u8>, r: Result<SettlementPayout, OracleError>) -> bool {
        match old.retry_check(id) {
            Some(e) => r is Err && r->Err_0 == e && new == old,
            None => {
                let idx = old.assertion_index(id);
                let a = old.assertions@[idx].assertion;
                &&& r is Ok
                &&& a.pending_payout == Some(r->Ok_0)
                &&& new.only_assertion_changed(&old, idx)
                &&& new.assertions@[idx].assertion == (Assertion { settlement_in_flight: true, ..a })
            },
        }
    }

    /// Dispatches the pending payout again after a failed attempt: exactly
    /// the payout recorded when the settlement started. Refused while an
    /// attempt is in flight.
    pub fn retry_settlement_payout(&mut self, assertion_id: Bytes32) -> (r: Result<SettlementPayout, OracleError>)
        requires
            old(self).wf(),
        ensures
            final(self).wf(),
            Self::retry_post(*old(self), *final(self), assertion_id@, r),
    {
        let i = match self.find_assertion(&assertion_id) {
            Some(i) => i,
            None => return Err(OracleError::AssertionNotFound),
        };
        if self.assertions[i].assertion.settled {
            return Err(OracleError::AlreadySettled);
        }
        if !self.assertions[i].assertion.settlement_pending {
            return Err(OracleError::SettlementNotPending);
        }
        if self.assertions[i].assertion.settlement_in_flight {
            return Err(OracleError::PayoutInFlight);
        }
        proof {
            self.lemma_assertion_index(i as int);
            assert(assertion_wf(self.assertions@[i as int].assertion));
        }
        let payout = match &self.assertions[i].assertion.pending_payout {
            Some(p) => p.duplicate(),
            None => return Err(OracleError::SettlementNotPending),
        };
        let entry = &mut self.assertions[i];
        entry.assertion.settlement_in_flight = true;
        Ok(payout)
    }

    /// Why a payout confirmation would be refused, if it would be.
    pub open spec fn completion_check(&self, id: Seq<u8>) -> Option<OracleError> {
        if !self.has_assertion(id) {
            Some(OracleError::AssertionNotFound)
        } else if !self.assertion(id).settlement_pending {
            Some(OracleError::SettlementNotPending)
        } else if !self.assertion(id).settlement_in_flight {
            Some(OracleError::PayoutNotInFlight)
        } else {
            None
        }
    }

    /// `new` is `old` after the outcome `success` of a payout attempt was reported, with result `r`.
    pub open spec fn completion_post(old: Self, new: Self, id: Seq<u8>, success: bool, r: Result<Option<ResolvedCallback>, OracleError>) -> bool {
        match old.completion_check(id) {
            Some(e) => r is Err && r->Err_0 == e && new == old,
            None => {
                let idx = old.assertion_index(id);
                let a = old.assertions@[idx].assertion;
                &&& r is Ok
                &&& new.only_assertion_changed(&old, idx)
                &&& if success {
                    &&& new.assertions@[idx].assertion == payout_confirmed(a)
                    &&& (r->Ok_0 is Some) == (!a.escalation_manager_settings.discard_oracle && a.callback_recipient is Some)
                    &&& r->Ok_0 is Some ==> ({
                        let c = r->Ok_0->Some_0;
                        &&& c.recipient == a.callback_recipient->Some_0
                        &&& c.assertion_id@ == hex_of(id)
                        &&& c.asserted_truthfully == a.pending_settlement_resolution
                    })
                } else {
                    &&& new.assertions@[idx].assertion == (Assertion { settlement_in_flight: false, ..a })
                    &&& r->Ok_0 is None
                }
            },
        }
    }

    /// Continuation of a payout attempt. On success the assertion is settled
    /// with the pending resolution, and the callback recipient, if any and
    /// unless the oracle's resolution is discarded, is to be notified. On
    /// failure the payout stays pending, ready for a retry.
    pub fn on_settlement_payout_complete(&mut self, assertion_id: Bytes32, success: bool) -> (r: Result<Option<ResolvedCallback>, OracleError>)
        requires
            old(self).wf(),
        ensures
            final(self).wf(),
            Self::completion_post(*old(self), *final(self), assertion_id@, success, r),
    {
        let i = match self.find_assertion(&assertion_id) {
            Some(i) => i,
            None => return Err(OracleError::AssertionNotFound),
        };
        if !self.assertions[i].assertion.settlement_pending {
            return Err(OracleError::SettlementNotPending);
        }
        if !self.assertions[i].assertion.settlement_in_flight {
            return Err(OracleError::PayoutNotInFlight);
        }
        if !success {
            let entry = &mut self.assertions[i];
            entry.assertion.settlement_in_flight = false;
            return Ok(None);
        }
        let resolution = self.assertions[i].assertion.pending_settlement_resolution;
        let callback = if self.assertions[i].assertion.escalation_manager_settings.discard_oracle {
            None
        } else {
            match &self.assertions[i].assertion.callback_recipient {
                Some(recipient) => Some(ResolvedCallback {
                    recipient: recipient.clone(),
                    assertion_id: to_hex(assertion_id.as_slice()),
                    asserted_truthfully: resolution,
                }),
                None => None,
            }
        };
        let entry = &mut self.assertions[i];
        entry.assertion.settlement_in_flight = false;
        entry.assertion.settlement_pending = false;
        entry.assertion.settled = true;
        entry.assertion.settlement_resolution = resolution;
        entry.assertion.pending_payout = None;
        Ok(callback)
    }

    /// The resolution of an assertion: false when it was disputed and its
    /// policy discards the oracle's answer; otherwise its settled resolution.
    pub fn get_assertion_result(&self, assertion_id: Bytes32) -> (r: Result<bool, OracleError>)
        requires
            self.wf(),
        ensures
            !self.has_assertion(assertion_id@) ==> r == Err::<bool, OracleError>(OracleError::AssertionNotFound),
            self.has_assertion(assertion_id@) ==> ({
                let a = self.assertion(assertion_id@);
                if a.disputer is Some && a.escalation_manager_settings.discard_oracle {
                    r == Ok::<bool, OracleError>(false)
                } else if !a.settled {
                    r == Err::<bool, OracleError>(OracleError::NotSettled)
                } else {
                    r == Ok::<bool, OracleError>(a.settlement_resolution)
                }
            }),
    {
        let i = match self.find_assertion(&assertion_id) {
            Some(i) => i,
            None => return Err(OracleError::AssertionNotFound),
        };
        let a = &self.assertions[i].assertion;
        if a.disputer.is_some() && a.escalation_manager_settings.discard_oracle {
            return Ok(false);
        }
        if !a.settled {
            return Err(OracleError::NotSettled);
        }
        Ok(a.settlement_resolution)
    }

    /// Settles an assertion if needed and returns its resolution with the
    /// step the settlement led to. Only an assertion whose result is known at
    /// once succeeds: one already settled, or a disputed one whose policy
    /// discards the oracle's answer. Otherwise the call is refused with the
    /// reason settling would give, or `NotSettled`.
    pub fn settle_and_get_assertion_result(&mut self, assertion_id: Bytes32, now: u64) -> (r: Result<(Option<SettleStep>, bool), OracleError>)
        requires
            old(self).wf(),
        ensures
            final(self).wf(),
            !old(self).has_assertion(assertion_id@) ==> r is Err && r->Err_0 == OracleError::AssertionNotFound && *final(self) == *old(self),
            old(self).has_assertion(assertion_id@) ==> ({
                let a = old(self).assertion(assertion_id@);
                if a.settled {
                    &&& *final(self) == *old(self)
                    &&& if a.disputer is Some && a.escalation_manager_settings.discard_oracle {
                        r is Ok && r->Ok_0.0 is None && r->Ok_0.1 == false
                    } else {
                        r is Ok && r->Ok_0.0 is None && r->Ok_0.1 == a.settlement_resolution
                    }
                } else if a.disputer is Some && a.escalation_manager_settings.discard_oracle {
                    match old(self).settle_check(assertion_id@, now) {
                        Some(e) => r is Err && r->Err_0 == e && *final(self) == *old(self),
                        None => r is Ok && r->Ok_0.1 == false && r->Ok_0.0 is Some
                            && Self::settle_post(*old(self), *final(self), assertion_id@, now, Ok(r->Ok_0.0->Some_0)),
                    }
                } else {
                    &&& *final(self) == *old(self)
                    &&& r is Err
                    &&& r->Err_0 == match old(self).settle_check(assertion_id@, now) {
                        Some(e) => e,
                        None => OracleError::NotSettled,
                    }
                }
            }),
    {
        let i = match self.find_assertion(&assertion_id) {
            Some(i) => i,
            None => return Err(OracleError::AssertionNotFound),
        };
        let discards = self.assertions[i].assertion.disputer.is_some()
            && self.assertions[i].assertion.escalation_manager_settings.discard_oracle;
        if self.assertions[i].assertion.settled {
            let result = if discards { false } else { self.assertions[i].assertion.settlement_resolution };
            return Ok((None, result));
        }
        if discards {
            return match self.settle_assertion(assertion_id, now) {
                Ok(step) => Ok((Some(step), false)),
                Err(e) => Err(e),
            };
        }
        match self.check_settle(i, now) {
            Some(e) => Err(e),
            None => Err(OracleError::NotSettled),
        }
    }

    /// Why settling the assertion at position `i` would be refused, if it would be.
    fn check_settle(&self, i: usize, now: u64) -> (r: Option<OracleError>)
        requires
            self.wf(),
            i < self.assertions@.len(),
        ensures
            r == self.settle_check(self.assertions@[i as int].assertion_id@, now),
    {
        proof {
            self.lemma_assertion_index(i as int);
        }
        let a = &self.assertions[i].assertion;
        if a.settled {
            Some(OracleError::AlreadySettled)
        } else if a.settlement_pending {
            Some(OracleError::SettlementPending)
        } else if a.disputer.is_none() {
            if a.expiration_time_ns > now {
                Some(OracleError::AssertionNotExpired)
            } else {
                None
            }
        } else if self.get_dispute_request(self.assertions[i].assertion_id).is_none() {
            Some(OracleError::NotEscalated)
        } else if self.voting_contract.is_none() {
            Some(OracleError::VotingNotConfigured)
        } else {
            None
        }
    }

    /// Takes a bond transfer: an assertion or a dispute. `currency` is the
    /// token that sent the notification and `sender_id` the account whose
    /// tokens arrived. The whole amount is used as the bond; nothing is refunded.
    pub fn ft_on_transfer(&mut self, currency: AccountId, sender_id: AccountId, amount: u128, msg: FtOnTransferMsg, now: u64) -> (r: Result<TransferOutcome, OracleError>)
        requires
            old(self).wf(),
        ensures
            final(self).wf(),
            match msg {
                FtOnTransferMsg::AssertTruth(args) => {
                    &&& r is Ok ==> r->Ok_0 is Asserted
                    &&& Self::asserted(*old(self), *final(self), args.claim, args.asserter, args.callback_recipient,
                        args.escalation_manager, args.liveness_ns, args.assertion_time_ns, currency, amount,
                        args.identifier, args.domain_id, args.assertion_id_override, sender_id, now,
                        match r { Ok(o) => Ok(o->Asserted_assertion_id), Err(e) => Err(e) })
                },
                FtOnTransferMsg::DisputeAssertion { assertion_id, disputer } => {
                    &&& r is Ok ==> r->Ok_0 is Disputed
                    &&& Self::disputed(*old(self), *final(self), assertion_id, disputer, currency, amount, now,
                        match r { Ok(o) => Ok(o->escalation), Err(e) => Err(e) })
                },
            },
    {
        match msg {
            FtOnTransferMsg::AssertTruth(args) => {
                match self.internal_assert_truth(
                    args.claim,
                    args.asserter,
                    args.callback_recipient,
                    args.escalation_manager,
                    args.liveness_ns,
                    args.assertion_time_ns,
                    currency,
                    amount,
                    args.identifier,
                    args.domain_id,
                    args.assertion_id_override,
                    sender_id,
                    now,
                ) {
                    Ok(assertion_id) => Ok(TransferOutcome::Asserted { assertion_id }),
                    Err(e) => Err(e),
                }
            },
            FtOnTransferMsg::DisputeAssertion { assertion_id, disputer } => {
                match self.internal_dispute_assertion(assertion_id, disputer, currency, amount, sender_id, now) {
                    Ok(escalation) => Ok(TransferOutcome::Disputed { escalation }),
                    Err(e) => Err(e),
                }
            },
        }
    }
}

impl NestOptimisticOracle {
    /// The identifier used when an assertion names none.
    pub fn default_identifier(&self) -> (r: Bytes32)
        ensures
            r@ == default_identifier_spec(),
    {
        Self::default_identifier_bytes()
    }

    /// The default bond currency.
    pub fn default_currency(&self) -> (r: AccountId)
        ensures
            r == self.default_currency,
    {
        self.default_currency.clone()
    }

    /// The liveness used when an assertion names none, in nanoseconds.
    pub fn default_liveness(&self) -> (r: u64)
        ensures
            r == self.default_liveness_ns,
    {
        self.default_liveness_ns
    }

    /// The assertion with this id, if any.
    pub fn get_assertion(&self, assertion_id: Bytes32) -> (r: Option<&Assertion>)
        requires
            self.wf(),
        ensures
            match r {
                Some(a) => self.has_assertion(assertion_id@) && *a == self.assertion(assertion_id@),
                None => !self.has_assertion(assertion_id@),
            },
    {
        match self.find_assertion(&assertion_id) {
            Some(i) => Some(&self.assertions[i].assertion),
            None => None,
        }
    }

    /// The configured voting engine, if any.
    pub fn get_voting_contract(&self) -> (r: Option<AccountId>)
        ensures
            r == self.voting_contract,
    {
        self.voting_contract.clone()
    }

    /// Whether the assertion's dispute was escalated to a voting request.
    pub fn is_dispute_resolved(&self, assertion_id: Bytes32) -> (r: bool)
        requires
            self.wf(),
        ensures
            r == (self.dispute_request(assertion_id@) is Some),
    {
        self.get_dispute_request(assertion_id).is_some()
    }

    /// Sets the default currency, the default liveness and the burned bond
    /// percentage, which must lie in `1..=SCALE`. Owner only.
    pub fn set_admin_properties(&mut self, caller: AccountId, default_currency: AccountId, default_liveness_ns: u64, burned_bond_percentage: u128) -> (r: Result<(), OracleError>)
        requires
            old(self).wf(),
        ensures
            final(self).wf(),
            r == if caller@ != old(self).owner@ {
                Err(OracleError::Unauthorized)
            } else if burned_bond_percentage > SCALE {
                Err(OracleError::BurnedBondTooHigh)
            } else if burned_bond_percentage == 0 {
                Err(OracleError::BurnedBondZero)
            } else {
                Ok::<(), OracleError>(())
            },
            r is Err ==> *final(self) == *old(self),
            r is Ok ==> *final(self) == (NestOptimisticOracle {
                default_currency,
                default_liveness_ns,
                burned_bond_percentage,
                ..*old(self)
            }),
    {
        if !caller.eq(&self.owner) {
            return Err(OracleError::Unauthorized);
        }
        if burned_bond_percentage > SCALE {
            return Err(OracleError::BurnedBondTooHigh);
        }
        if burned_bond_percentage == 0 {
            return Err(OracleError::BurnedBondZero);
        }
        self.default_currency = default_currency;
        self.default_liveness_ns = default_liveness_ns;
        self.burned_bond_percentage = burned_bond_percentage;
        Ok(())
    }

    /// Whitelists a currency with its final fee, replacing any earlier entry. Owner only.
    pub fn whitelist_currency(&mut self, caller: AccountId, currency: AccountId, final_fee: u128) -> (r: Result<(), OracleError>)
        requires
            old(self).wf(),
        ensures
            final(self).wf(),
            caller@ != old(self).owner@ ==> r == Err::<(), OracleError>(OracleError::Unauthorized) && *final(self) == *old(self),
            caller@ == old(self).owner@ ==> {
                &&& r is Ok
                &&& final(self).currency_entry(currency@) == Some(WhitelistedCurrency { is_whitelisted: true, final_fee })
                &&& forall|c: Seq<char>| c != currency@ ==> final(self).currency_entry(c) == old(self).currency_entry(c)
                &&& final(self).assertions == old(self).assertions
                &&& final(self).dispute_requests == old(self).dispute_requests
                &&& final(self).cached_identifiers == old(self).cached_identifiers
                &&& final(self).owner == old(self).owner
                &&& final(self).burned_bond_percentage == old(self).burned_bond_percentage
                &&& final(self).voting_contract == old(self).voting_contract
                &&& final(self).default_liveness_ns == old(self).default_liveness_ns
            },
    {
        if !caller.eq(&self.owner) {
            return Err(OracleError::Unauthorized);
        }
        let found = self.find_currency(&currency);
        let ghost old_list = self.cached_currencies@;
        let info = WhitelistedCurrency { is_whitelisted: true, final_fee };
        let i: usize = match found {
            Some(i) => {
                self.cached_currencies[i].info = info;
                i
            },
            None => {
                let n = self.cached_currencies.len();
                self.cached_currencies.push(CurrencyEntry { currency, info });
                n
            },
        };
        proof {
            let list = self.cached_currencies@;
            assert(list[i as int].currency@ == currency@);
            assert forall|a: int, b: int| 0 <= a < b < list.len() implies list[a].currency@ != list[b].currency@ by {
                if b < old_list.len() {
                    assert(list[a].currency == old_list[a].currency);
                    assert(list[b].currency == old_list[b].currency);
                } else {
                    assert(list[a] == old_list[a]);
                }
            }
            assert(exists|k: int| 0 <= k < list.len() && list[k].currency@ == currency@);
            let k = choose|k: int| 0 <= k < list.len() && list[k].currency@ == currency@;
            assert(k == i) by {
                if k < i {
                    assert(list[k].currency@ != list[i as int].currency@);
                } else if i < k {
                    assert(list[i as int].currency@ != list[k].currency@);
                }
            }
            assert forall|c: Seq<char>| c != currency@ implies self.currency_entry(c) == old(self).currency_entry(c) by {
                if exists|k: int| 0 <= k < old_list.len() && old_list[k].currency@ == c {
                    let k = choose|k: int| 0 <= k < old_list.len() && old_list[k].currency@ == c;
                    assert(list[k] == old_list[k]);
                    let k2 = choose|k: int| 0 <= k < list.len() && list[k].currency@ == c;
                    assert(k2 == k) by {
                        if k2 < k {
                            assert(list[k2].currency@ != list[k].currency@);
                        } else if k < k2 {
                            assert(list[k].currency@ != list[k2].currency@);
                        }
                    }
                } else {
                    assert forall|k: int| 0 <= k < list.len() implies list[k].currency@ != c by {
                        if k != i {
                            assert(list[k] == old_list[k]);
                        }
                    }
                }
            }
        }
        Ok(())
    }

    /// Approves an identifier. Owner only.
    pub fn whitelist_identifier(&mut self, caller: AccountId, identifier: Bytes32) -> (r: Result<(), OracleError>)
        requires
            old(self).wf(),
        ensures
            final(self).wf(),
            caller@ != old(self).owner@ ==> r == Err::<(), OracleError>(OracleError::Unauthorized) && *final(self) == *old(self),
            caller@ == old(self).owner@ ==> {
                &&& r is Ok
                &&& final(self).identifier_supported(identifier@)
                &&& forall|x: Seq<u8>| old(self).identifier_supported(x) ==> final(self).identifier_supported(x)
                &&& forall|x: Seq<u8>| final(self).identifier_supported(x) ==> x == identifier@ || old(self).identifier_supported(x)
                &&& final(self).assertions == old(self).assertions
                &&& final(self).cached_currencies == old(self).cached_currencies
                &&& final(self).dispute_requests == old(self).dispute_requests
                &&& final(self).owner == old(self).owner
                &&& final(self).burned_bond_percentage == old(self).burned_bond_percentage
                &&& final(self).voting_contract == old(self).voting_contract
                &&& final(self).default_liveness_ns == old(self).default_liveness_ns
            },
    {
        if !caller.eq(&self.owner) {
            return Err(OracleError::Unauthorized);
        }
        if !self.is_identifier_supported(identifier) {
            let ghost before = self.cached_identifiers@;
            self.cached_identifiers.push(identifier);
            proof {
                let list = self.cached_identifiers@;
                assert(list[before.len() as int]@ == identifier@);
                assert forall|x: Seq<u8>| #[trigger] old(self).identifier_supported(x) implies self.identifier_supported(x) by {
                    let k = choose|k: int| 0 <= k < before.len() && before[k]@ == x;
                    assert(list[k] == before[k]);
                }
                assert forall|x: Seq<u8>| #[trigger] self.identifier_supported(x) implies x == identifier@ || old(self).identifier_supported(x) by {
                    let k = choose|k: int| 0 <= k < list.len() && list[k]@ == x;
                    if k < before.len() {
                        assert(list[k] == before[k]);
                    }
                }
            }
        }
        Ok(())
    }

    /// Sets the voting engine that disputes escalate to. Owner only.
    pub fn set_voting_contract(&mut self, caller: AccountId, voting_contract: AccountId) -> (r: Result<(), OracleError>)
        requires
            old(self).wf(),
        ensures
            final(self).wf(),
            caller@ != old(self).owner@ ==> r == Err::<(), OracleError>(OracleError::Unauthorized) && *final(self) == *old(self),
            caller@ == old(self).owner@ ==> r is Ok && *final(self) == (NestOptimisticOracle { voting_contract: Some(voting_contract), ..*old(self) }),
    {
        if !caller.eq(&self.owner) {
            return Err(OracleError::Unauthorized);
        }
        self.voting_contract = Some(voting_contract);
        Ok(())
    }

    /// The owner's recovery of stuck tokens: the transfer to make. Owner only;
    /// the amount must be positive.
    pub fn emergency_withdraw_token(&self, caller: AccountId, token: AccountId, receiver_id: AccountId, amount: u128) -> (r: Result<Withdrawal, OracleError>)
        ensures
            caller@ != self.owner@ ==> r == Err::<Withdrawal, OracleError>(OracleError::Unauthorized),
            caller@ == self.owner@ && amount == 0 ==> r == Err::<Withdrawal, OracleError>(OracleError::AmountZero),
            caller@ == self.owner@ && amount > 0 ==> r == Ok::<Withdrawal, OracleError>(Withdrawal { token: Some(token), receiver_id, amount }),
    {
        if !caller.eq(&self.owner) {
            return Err(OracleError::Unauthorized);
        }
        if amount == 0 {
            return Err(OracleError::AmountZero);
        }
        Ok(Withdrawal { token: Some(token), receiver_id, amount })
    }

    /// The owner's recovery of the native balance: the transfer to make.
    /// Owner only; the amount must be positive and at most `balance`.
    pub fn emergency_withdraw_near(&self, caller: AccountId, receiver_id: AccountId, amount: u128, balance: u128) -> (r: Result<Withdrawal, OracleError>)
        ensures
            caller@ != self.owner@ ==> r == Err::<Withdrawal, OracleError>(OracleError::Unauthorized),
            caller@ == self.owner@ && amount == 0 ==> r == Err::<Withdrawal, OracleError>(OracleError::AmountZero),
            caller@ == self.owner@ && amount > 0 && balance < amount ==> r == Err::<Withdrawal, OracleError>(OracleError::InsufficientBalance),
            caller@ == self.owner@ && amount > 0 && balance >= amount ==> r == Ok::<Withdrawal, OracleError>(Withdrawal { token: None, receiver_id, amount }),
    {
        if !caller.eq(&self.owner) {
            return Err(OracleError::Unauthorized);
        }
        if amount == 0 {
            return Err(OracleError::AmountZero);
        }
        if balance < amount {
            return Err(OracleError::InsufficientBalance);
        }
        Ok(Withdrawal { token: None, receiver_id, amount })
    }
}

impl NestOptimisticOracle {
    /// An assertion cannot be made twice: once an assertion call succeeds, the
    /// same call with the same parameters is refused as a duplicate and
    /// changes nothing.
    pub proof fn lemma_duplicate_assertion_rejected(
        s0: Self,
        s1: Self,
        s2: Self,
        claim: Bytes32,
        asserter: AccountId,
        callback_recipient: Option<AccountId>,
        escalation_manager: Option<AccountId>,
        liveness_ns: Option<u64>,
        assertion_time_ns: Option<u64>,
        currency: AccountId,
        bond: u128,
        identifier: Option<Bytes32>,
        domain_id: Option<Bytes32>,
        assertion_id_override: Option<Bytes32>,
        caller: AccountId,
        now: u64,
        r1: Result<Bytes32, OracleError>,
        r2: Result<Bytes32, OracleError>,
    )
        requires
            Self::asserted(s0, s1, claim, asserter, callback_recipient, escalation_manager, liveness_ns,
                assertion_time_ns, currency, bond, identifier, domain_id, assertion_id_override, caller, now, r1),
            r1 is Ok,
            Self::asserted(s1, s2, claim, asserter, callback_recipient, escalation_manager, liveness_ns,
                assertion_time_ns, currency, bond, identifier, domain_id, assertion_id_override, caller, now, r2),
        ensures
            r2 == Err::<Bytes32, OracleError>(OracleError::AssertionAlreadyExists),
            s2 == s1,
    {
        let last = s1.assertions@.len() - 1;
        assert(s1.assertions@[last].assertion_id@ == r1->Ok_0@);
        assert(s1.has_assertion(r1->Ok_0@));
    }

    /// A dispute bond must equal the assertion's bond: for an undisputed,
    /// unexpired assertion and a bond in its currency, the dispute is accepted
    /// exactly when the amounts are equal, and refused as a bond mismatch
    /// otherwise.
    pub proof fn lemma_dispute_bond_exact(s: Self, id: Seq<u8>, currency: Seq<char>, bond_amount: u128, now: u64)
        requires
            s.has_assertion(id),
            s.assertion(id).disputer is None,
            s.assertion(id).expiration_time_ns > now,
            s.assertion(id).currency@ == currency,
        ensures
            (s.dispute_check(id, currency, bond_amount, now) is None) == (bond_amount == s.assertion(id).bond),
            bond_amount != s.assertion(id).bond ==> s.dispute_check(id, currency, bond_amount, now)
                == Some(OracleError::DisputeBondMismatch),
    {
    }

    /// Settling is idempotent: once a settle call has started a payout, a
    /// second settle is refused as pending, and so is every other way of
    /// starting or re-dispatching a payout while that attempt is in flight.
    pub proof fn lemma_settle_idempotent(s0: Self, s1: Self, id: Seq<u8>, now: u64, later: u64, caller: Seq<char>, r: Result<SettleStep, OracleError>)
        requires
            s0.wf(),
            s1.wf(),
            Self::settle_post(s0, s1, id, now, r),
            r is Ok,
            r->Ok_0 is Payout,
        ensures
            s1.settle_check(id, later) == Some(OracleError::SettlementPending),
            s1.start_check(id) == Some(OracleError::SettlementPending),
            s1.manual_check(caller, id) is Some,
            s1.retry_check(id) == Some(OracleError::PayoutInFlight),
    {
        let idx = s0.assertion_index(id);
        assert(s1.assertions@[idx].assertion_id@ == id);
        s1.lemma_assertion_index(idx);
    }

    /// A failed payout converges on retry: once a payout is started, a first
    /// attempt that fails, followed by a retry that succeeds, settles the
    /// assertion with the started resolution, and the retry dispatches the
    /// very payout of the first attempt, so exactly one full payout is made;
    /// the assertion then accepts no further payout.
    pub proof fn lemma_retry_convergence(
        sa: Self,
        s0: Self,
        s1: Self,
        s2: Self,
        s3: Self,
        id: Seq<u8>,
        resolution: bool,
        r0: Result<SettlementPayout, OracleError>,
        r1: Result<Option<ResolvedCallback>, OracleError>,
        r2: Result<SettlementPayout, OracleError>,
        r3: Result<Option<ResolvedCallback>, OracleError>,
    )
        requires
            sa.wf(),
            s0.wf(),
            s1.wf(),
            s2.wf(),
            s3.wf(),
            sa.has_assertion(id),
            Self::payout_start(sa, s0, id, resolution, r0),
            r0 is Ok,
            Self::completion_post(s0, s1, id, false, r1),
            Self::retry_post(s1, s2, id, r2),
            Self::completion_post(s2, s3, id, true, r3),
        ensures
            r1 is Ok,
            r2 is Ok,
            r2->Ok_0 == r0->Ok_0,
            r3 is Ok,
            s3.assertion(id).settled,
            s3.assertion(id).settlement_resolution == resolution,
            s3.retry_check(id) == Some(OracleError::AlreadySettled),
            s3.start_check(id) == Some(OracleError::AlreadySettled),
    {
        let idx = sa.assertion_index(id);
        sa.lemma_assertion_index(idx);
        assert(s0.assertions@[idx].assertion_id@ == id);
        s0.lemma_assertion_index(idx);
        assert(s1.assertions@[idx].assertion_id@ == id);
        s1.lemma_assertion_index(idx);
        assert(s2.assertions@[idx].assertion_id@ == id);
        s2.lemma_assertion_index(idx);
        assert(s3.assertions@[idx].assertion_id@ == id);
        s3.lemma_assertion_index(idx);
    }
}

impl NestOptimisticOracle {
    /// A settled assertion's resolution is final: every step of the
    /// settlement saga refuses it, so none can pay it out again or change
    /// its resolution.
    pub proof fn lemma_settled_is_final(s: Self, id: Seq<u8>, now: u64, caller: Seq<char>)
        requires
            s.wf(),
            s.has_assertion(id),
            s.assertion(id).settled,
        ensures
            s.settle_check(id, now) == Some(OracleError::AlreadySettled),
            s.start_check(id) == Some(OracleError::AlreadySettled),
            s.retry_check(id) == Some(OracleError::AlreadySettled),
            s.completion_check(id) == Some(OracleError::SettlementNotPending),
            s.manual_check(caller, id) is Some,
    {
        let idx = s.assertion_index(id);
        assert(assertion_wf(s.assertions@[idx].assertion));
    }
}

impl NestOptimisticOracle {
    /// An attempt to pay out `p` with resolution `resolution` is under way.
    pub open spec fn attempt_in_flight(&self, id: Seq<u8>, p: SettlementPayout, resolution: bool) -> bool {
        &&& self.has_assertion(id)
        &&& !self.assertion(id).settled
        &&& self.assertion(id).settlement_pending
        &&& self.assertion(id).settlement_in_flight
        &&& self.assertion(id).pending_payout == Some(p)
        &&& self.assertion(id).pending_settlement_resolution == resolution
    }

    proof fn lemma_fail_then_retry(
        a: Self,
        b: Self,
        c: Self,
        id: Seq<u8>,
        p: SettlementPayout,
        resolution: bool,
        rf: Result<Option<ResolvedCallback>, OracleError>,
        rr: Result<SettlementPayout, OracleError>,
    )
        requires
            a.wf(),
            b.wf(),
            c.wf(),
            a.attempt_in_flight(id, p, resolution),
            Self::completion_post(a, b, id, false, rf),
            Self::retry_post(b, c, id, rr),
        ensures
            rr == Ok::<SettlementPayout, OracleError>(p),
            c.attempt_in_flight(id, p, resolution),
    {
        let idx = a.assertion_index(id);
        assert(b.assertions@[idx].assertion_id@ == id);
        b.lemma_assertion_index(idx);
        assert(c.assertions@[idx].assertion_id@ == id);
        c.lemma_assertion_index(idx);
    }

    proof fn lemma_retries_prefix(
        s: Seq<Self>,
        failures: Seq<Result<Option<ResolvedCallback>, OracleError>>,
        retries: Seq<Result<SettlementPayout, OracleError>>,
        id: Seq<u8>,
        p: SettlementPayout,
        resolution: bool,
        k: int,
        j: int,
    )
        requires
            0 <= j <= k,
            s.len() == 2 * k + 2,
            failures.len() == k,
            retries.len() == k,
            forall|i: int| 0 <= i < s.len() ==> (#[trigger] s[i]).wf(),
            s[0].attempt_in_flight(id, p, resolution),
            forall|i: int| 0 <= i < k ==> {
                &&& Self::completion_post(#[trigger] s[2 * i], s[2 * i + 1], id, false, failures[i])
                &&& Self::retry_post(s[2 * i + 1], s[2 * i + 2], id, retries[i])
            },
        ensures
            s[2 * j].attempt_in_flight(id, p, resolution),
            forall|i: int| 0 <= i < j ==> #[trigger] retries[i] == Ok::<SettlementPayout, OracleError>(p),
        decreases j,
    {
        if j > 0 {
            Self::lemma_retries_prefix(s, failures, retries, id, p, resolution, k, j - 1);
            let i = j - 1;
            assert(s[2 * i].wf() && s[2 * i + 1].wf() && s[2 * i + 2].wf());
            assert(Self::completion_post(s[2 * i], s[2 * i + 1], id, false, failures[i]));
            Self::lemma_fail_then_retry(s[2 * i], s[2 * i + 1], s[2 * i + 2], id, p, resolution, failures[i], retries[i]);
            assert(2 * i + 2 == 2 * j);
        }
    }

    /// Retries converge whatever their number: after a payout `p` with
    /// `resolution` is started, any number `k` of failed attempts, each
    /// followed by a retry, makes every retry dispatch exactly `p`; the
    /// attempt that then succeeds settles the assertion with `resolution`, so
    /// exactly one payout `p` is made in all, and the assertion accepts no
    /// further payout.
    pub proof fn lemma_retries_converge(
        s: Seq<Self>,
        failures: Seq<Result<Option<ResolvedCallback>, OracleError>>,
        retries: Seq<Result<SettlementPayout, OracleError>>,
        success: Result<Option<ResolvedCallback>, OracleError>,
        id: Seq<u8>,
        p: SettlementPayout,
        resolution: bool,
        k: int,
    )
        requires
            k >= 0,
            s.len() == 2 * k + 2,
            failures.len() == k,
            retries.len() == k,
            forall|i: int| 0 <= i < s.len() ==> (#[trigger] s[i]).wf(),
            s[0].attempt_in_flight(id, p, resolution),
            forall|i: int| 0 <= i < k ==> {
                &&& Self::completion_post(#[trigger] s[2 * i], s[2 * i + 1], id, false, failures[i])
                &&& Self::retry_post(s[2 * i + 1], s[2 * i + 2], id, retries[i])
            },
            Self::completion_post(s[2 * k], s[2 * k + 1], id, true, success),
        ensures
            forall|i: int| 0 <= i < k ==> #[trigger] retries[i] == Ok::<SettlementPayout, OracleError>(p),
            success is Ok,
            s[2 * k + 1].assertion(id).settled,
            s[2 * k + 1].assertion(id).settlement_resolution == resolution,
            s[2 * k + 1].retry_check(id) == Some(OracleError::AlreadySettled),
            s[2 * k + 1].start_check(id) == Some(OracleError::AlreadySettled),
    {
        Self::lemma_retries_prefix(s, failures, retries, id, p, resolution, k, k);
        let a = s[2 * k];
        let b = s[2 * k + 1];
        assert(a.wf() && b.wf());
        let idx = a.assertion_index(id);
        assert(b.assertions@[idx].assertion_id@ == id);
        b.lemma_assertion_index(idx);
    }

    /// Every way of starting a payout records it: the payout that a start
    /// returns is the one its attempt carries while in flight.
    pub proof fn lemma_start_records_payout(sa: Self, s0: Self, id: Seq<u8>, resolution: bool, r: Result<SettlementPayout, OracleError>)
        requires
            sa.wf(),
            s0.wf(),
            sa.has_assertion(id),
            Self::payout_start(sa, s0, id, resolution, r),
            r is Ok,
        ensures
            s0.attempt_in_flight(id, r->Ok_0, resolution),
    {
        let idx = sa.assertion_index(id);
        assert(s0.assertions@[idx].assertion_id@ == id);
        s0.lemma_assertion_index(idx);
    }
}

impl NestOptimisticOracle {
    /// Settling an undisputed assertion records its payout the same way.
    pub proof fn lemma_settle_records_payout(sa: Self, s0: Self, id: Seq<u8>, now: u64, r: Result<SettleStep, OracleError>)
        requires
            sa.wf(),
            s0.wf(),
            Self::settle_post(sa, s0, id, now, r),
            r is Ok,
            r->Ok_0 is Payout,
        ensures
            s0.attempt_in_flight(id, r->Ok_0->Payout_0, true),
    {
        let idx = sa.assertion_index(id);
        assert(s0.assertions@[idx].assertion_id@ == id);
        s0.lemma_assertion_index(idx);
    }
}

} // verus!
