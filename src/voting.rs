//! The commit-reveal voting engine that resolves disputes.
use vstd::prelude::*;
use crate::digest::{sha256, sha256_of};
use crate::encoding::{le_bytes, push_bytes, push_i128_le, push_u64_le};
use crate::tally::{
    bps_share, committed_stake, lemma_slash_conservation, lemma_stake_split, payout_sum, winner_count, distribute_rewards_and_slashing, expected_payouts,
    is_weighted_median, slashed_stake, stake_weighted_median, total_stake, transfer_view,
    winner_stake, Distribution, RevealedVote, TokenTransfer, VoteCommitment, VoterEntry,
};
use crate::types::{bytes32_eq, AccountId, CryptoHash};

verus! {

/// The phase of a price request; it only moves forward.
#[derive(Clone, Copy, PartialEq, Eq, Debug, Structural)]
pub enum VotingPhase {
    /// Voters submit hidden commitments.
    Commit,
    /// Voters disclose their votes.
    Reveal,
    /// A price has been fixed.
    Resolved,
}

/// The status of a price request, kept in step with its phase.
#[derive(Clone, Copy, PartialEq, Eq, Debug, Structural)]
pub enum RequestStatus {
    /// Not yet open for votes.
    Pending,
    /// In the commit or the reveal phase.
    Active,
    /// A price has been fixed.
    Resolved,
}

/// What an attempt to resolve a request led to.
#[derive(Clone, Copy, PartialEq, Eq, Debug, Structural)]
pub enum ResolvePriceOutcome {
    /// The request resolved to this price.
    Resolved { price: i128 },
    /// Too little stake was revealed; the reveal window was opened again.
    RevealExtended,
    /// Too little stake was revealed and no extension is left.
    EmergencyRequired,
}

/// Default length of the commit phase: 24 hours, in nanoseconds.
pub const DEFAULT_COMMIT_DURATION: u64 = 86_400_000_000_000;

/// Default length of the reveal phase: 24 hours, in nanoseconds.
pub const DEFAULT_REVEAL_DURATION: u64 = 86_400_000_000_000;

/// Why the voting engine rejected a call. A rejected call changes nothing.
#[derive(Clone, Copy, PartialEq, Eq, Debug, Structural)]
pub enum VotingError {
    RequestNotFound,
    RequestAlreadyExists,
    DirectCommitDisabled,
    WrongToken,
    ZeroStake,
    NotInCommitPhase,
    CommitPhaseEnded,
    AlreadyCommitted,
    StakeOverflow,
    CommitPhaseNotEnded,
    NotInRevealPhase,
    RevealPhaseEnded,
    NoCommitment,
    AlreadyRevealed,
    HashMismatch,
    RevealPhaseNotEnded,
    NoCommittedStake,
    NoRevealedVotes,
    EmergencyNotFromReveal,
    EmergencyNotEnabled,
    Unauthorized,
    RateTooHigh,
    BpsTooHigh,
}

impl VotingError {
    /// A human-readable description of the error.
    pub fn message(&self) -> String {
        let m = match self {
            VotingError::RequestNotFound => "Request not found",
            VotingError::RequestAlreadyExists => "Price request already exists",
            VotingError::DirectCommitDisabled => "Direct commit disabled. Use ft_transfer_call on voting token with CommitVote action.",
            VotingError::WrongToken => "Only voting token can call ft_on_transfer",
            VotingError::ZeroStake => "Stake amount must be positive",
            VotingError::NotInCommitPhase => "Not in commit phase",
            VotingError::CommitPhaseEnded => "Commit phase has ended",
            VotingError::AlreadyCommitted => "Already committed a vote",
            VotingError::StakeOverflow => "Committed stake overflows",
            VotingError::CommitPhaseNotEnded => "Commit phase not yet ended",
            VotingError::NotInRevealPhase => "Not in reveal phase",
            VotingError::RevealPhaseEnded => "Reveal phase has ended",
            VotingError::NoCommitment => "No commitment found",
            VotingError::AlreadyRevealed => "Already revealed",
            VotingError::HashMismatch => "Hash doesn't match commitment",
            VotingError::RevealPhaseNotEnded => "Reveal phase not yet ended",
            VotingError::NoCommittedStake => "No committed stake",
            VotingError::NoRevealedVotes => "No revealed votes",
            VotingError::EmergencyNotFromReveal => "Emergency resolve only from reveal phase",
            VotingError::EmergencyNotEnabled => "Emergency resolution not enabled for this request",
            VotingError::Unauthorized => "Only owner can call this method",
            VotingError::RateTooHigh => "Rate cannot exceed 100%",
            VotingError::BpsTooHigh => "BPS cannot exceed 100%",
        };
        m.to_owned()
    }
}

/// A price request opened for an escalated dispute.
pub struct PriceRequest {
    pub identifier: String,
    /// The time the price is asked for.
    pub timestamp: u64,
    /// Opaque data identifying what is asked (the oracle sends the assertion id).
    pub ancillary_data: Vec<u8>,
    pub requester: AccountId,
    pub status: RequestStatus,
    pub phase: VotingPhase,
    pub commit_start_time: u64,
    pub reveal_start_time: u64,
    /// Set exactly once, when the request resolves.
    pub resolved_price: Option<i128>,
    /// Stake of the voters who have revealed.
    pub revealed_stake: u128,
    /// Automatic reveal extensions granted for low participation.
    pub low_participation_extensions: u8,
    /// Participation stayed too low: only the owner can resolve the request.
    pub emergency_required: bool,
}

/// A request with its voters, in commit order, and their committed stake.
pub struct RequestRecord {
    pub request_id: CryptoHash,
    pub request: PriceRequest,
    pub voters: Vec<VoterEntry>,
    pub total_committed_stake: u128,
}

/// The payload of a stake transfer from the voting token.
pub enum FtOnTransferMsg {
    CommitVote { request_id: CryptoHash, commit_hash: CryptoHash },
}

/// What resolving a request led to, with the stake to hand out when it resolved.
pub struct Resolution {
    pub outcome: ResolvePriceOutcome,
    /// Present when the request resolved and a token and a treasury are configured.
    pub distribution: Option<Distribution>,
}

/// The commit-reveal voting engine.
pub struct Voting {
    pub owner: AccountId,
    pub commit_phase_duration: u64,
    pub reveal_phase_duration: u64,
    /// Share of committed stake that must be revealed, in basis points.
    pub min_participation_rate: u64,
    /// Every request ever opened, with its voters.
    pub records: Vec<RequestRecord>,
    pub voting_token: Option<AccountId>,
    pub treasury: Option<AccountId>,
    /// Share of slashed stake sent to the treasury, in basis points.
    pub slashing_treasury_bps: u16,
    pub max_low_participation_extensions: u8,
    /// Mixed into each request id, so that equal requests get distinct ids.
    pub request_nonce: u64,
}

/// Sum of the stakes of the voters of `s` who have revealed.
pub open spec fn revealed_stake_of(s: Seq<VoterEntry>) -> int
    decreases s.len(),
{
    if s.len() == 0 {
        0
    } else {
        revealed_stake_of(s.drop_last()) + if s.last().commitment.revealed {
            s.last().commitment.staked_amount as int
        } else {
            0
        }
    }
}

/// No voter appears twice.
pub open spec fn voters_unique(s: Seq<VoterEntry>) -> bool {
    forall|i: int, j: int| 0 <= i < j < s.len() ==> s[i].voter@ != s[j].voter@
}

/// The invariant of one request record.
pub open spec fn record_wf(r: RequestRecord) -> bool {
    &&& voters_unique(r.voters@)
    &&& r.total_committed_stake == committed_stake(r.voters@)
    &&& r.request.revealed_stake == revealed_stake_of(r.voters@)
    &&& forall|i: int| 0 <= i < r.voters@.len() ==> {
        &&& (#[trigger] r.voters@[i]).commitment.staked_amount > 0
        &&& (r.voters@[i].commitment.revealed <==> r.voters@[i].commitment.revealed_price is Some)
    }
    &&& (r.request.phase == VotingPhase::Resolved) == (r.request.status == RequestStatus::Resolved)
    &&& r.request.phase != VotingPhase::Resolved ==> r.request.status == RequestStatus::Active
    &&& (r.request.resolved_price is Some) == (r.request.phase == VotingPhase::Resolved)
    &&& r.request.emergency_required ==> r.request.phase == VotingPhase::Reveal
}

/// The bytes hashed into a request id.
pub open spec fn request_preimage(identifier: Seq<char>, timestamp: u64, ancillary_data: Seq<u8>, nonce: u64) -> Seq<u8> {
    vstd::utf8::encode_utf8(identifier) + le_bytes(timestamp as int, 8) + ancillary_data + le_bytes(nonce as int, 8)
}

/// The bytes hashed into a vote commitment: the price, then the salt.
pub open spec fn vote_preimage(price: i128, salt: Seq<u8>) -> Seq<u8> {
    le_bytes(price as u128 as int, 16) + salt
}

/// The commitment digest of a vote.
pub open spec fn vote_hash(price: i128, salt: Seq<u8>) -> Seq<u8> {
    sha256_of(vote_preimage(price, salt))
}

/// Index of the voter named `voter` in `s`, if any.
pub open spec fn has_voter(s: Seq<VoterEntry>, voter: Seq<char>) -> bool {
    exists|i: int| 0 <= i < s.len() && s[i].voter@ == voter
}

impl Voting {
    /// The engine's invariant.
    pub open spec fn wf(&self) -> bool {
        &&& self.min_participation_rate <= 10000
        &&& self.slashing_treasury_bps <= 10000
        &&& forall|i: int, j: int|
            0 <= i < j < self.records@.len() ==> self.records@[i].request_id@ != self.records@[j].request_id@
        &&& forall|i: int| 0 <= i < self.records@.len() ==> record_wf(#[trigger] self.records@[i])
    }

    /// A request with this id exists.
    pub open spec fn has_request(&self, id: Seq<u8>) -> bool {
        exists|i: int| 0 <= i < self.records@.len() && self.records@[i].request_id@ == id
    }

    /// The position of the request with this id.
    pub open spec fn index_of(&self, id: Seq<u8>) -> int {
        choose|i: int| 0 <= i < self.records@.len() && self.records@[i].request_id@ == id
    }

    /// The record of the request with this id.
    pub open spec fn record(&self, id: Seq<u8>) -> RequestRecord {
        self.records@[self.index_of(id)]
    }

    /// Everything but the records is as in `other`.
    pub open spec fn same_config(&self, other: &Self) -> bool {
        &&& self.owner == other.owner
        &&& self.commit_phase_duration == other.commit_phase_duration
        &&& self.reveal_phase_duration == other.reveal_phase_duration
        &&& self.min_participation_rate == other.min_participation_rate
        &&& self.voting_token == other.voting_token
        &&& self.treasury == other.treasury
        &&& self.slashing_treasury_bps == other.slashing_treasury_bps
        &&& self.max_low_participation_extensions == other.max_low_participation_extensions
        &&& self.request_nonce == other.request_nonce
    }

    /// Only the record at `idx` differs from `old`, and it keeps its id.
    pub open spec fn only_record_changed(&self, old: &Self, idx: int) -> bool {
        &&& self.same_config(old)
        &&& self.records@.len() == old.records@.len()
        &&& 0 <= idx < old.records@.len()
        &&& self.records@[idx].request_id == old.records@[idx].request_id
        &&& forall|j: int| 0 <= j < self.records@.len() && j != idx ==> self.records@[j] == old.records@[j]
    }

    /// The commit deadline of a request has passed at `now`.
    pub open spec fn commit_ended(&self, r: PriceRequest, now: u64) -> bool {
        now as int >= r.commit_start_time as int + self.commit_phase_duration as int
    }

    /// The reveal deadline of a request has passed at `now`.
    pub open spec fn reveal_ended(&self, r: PriceRequest, now: u64) -> bool {
        now as int >= r.reveal_start_time as int + self.reveal_phase_duration as int
    }

    /// A new engine owned by `owner`, with the default configuration.
    pub fn new(owner: AccountId) -> (r: Self)
        ensures
            r.wf(),
            r.owner == owner,
            r.commit_phase_duration == DEFAULT_COMMIT_DURATION,
            r.reveal_phase_duration == DEFAULT_REVEAL_DURATION,
            r.min_participation_rate == 500,
            r.records@.len() == 0,
            r.voting_token is None,
            r.treasury is None,
            r.slashing_treasury_bps == 5000,
            r.max_low_participation_extensions == 1,
            r.request_nonce == 0,
    {
        Voting {
            owner,
            commit_phase_duration: DEFAULT_COMMIT_DURATION,
            reveal_phase_duration: DEFAULT_REVEAL_DURATION,
            min_participation_rate: 500,
            records: Vec::new(),
            voting_token: None,
            treasury: None,
            slashing_treasury_bps: 5000,
            max_low_participation_extensions: 1,
            request_nonce: 0,
        }
    }

    /// The position of the request with this id, if there is one.
    fn find_request(&self, id: &CryptoHash) -> (r: Option<usize>)
        ensures
            match r {
                Some(i) => i < self.records@.len() && self.records@[i as int].request_id@ == id@,
                None => !self.has_request(id@),
            },
    {
        let mut i: usize = 0;
        while i < self.records.len()
            invariant
                i <= self.records@.len(),
                forall|j: int| 0 <= j < i ==> self.records@[j].request_id@ != id@,
            decreases self.records@.len() - i,
        {
            if bytes32_eq(&self.records[i].request_id, id) {
                return Some(i);
            }
            i = i + 1;
        }
        None
    }

    proof fn lemma_index_of(&self, id: Seq<u8>, i: int)
        requires
            self.wf(),
            0 <= i < self.records@.len(),
            self.records@[i].request_id@ == id,
        ensures
            self.has_request(id),
            self.index_of(id) == i,
    {
        let k = self.index_of(id);
        assert(0 <= k < self.records@.len() && self.records@[k].request_id@ == id);
        if k < i {
            assert(self.records@[k].request_id@ != self.records@[i].request_id@);
        } else if i < k {
            assert(self.records@[i].request_id@ != self.records@[k].request_id@);
        }
    }

    /// The id of the next request for these parameters: a digest of the
    /// identifier, the timestamp, the ancillary data and the nonce.
    fn generate_request_id(&self, identifier: &String, timestamp: u64, ancillary_data: &Vec<u8>) -> (r: CryptoHash)
        ensures
            r@ == sha256_of(request_preimage(identifier@, timestamp, ancillary_data@, self.request_nonce)),
    {
        let mut data: Vec<u8> = Vec::new();
        push_bytes(&mut data, identifier.as_str().as_bytes());
        push_u64_le(&mut data, timestamp);
        push_bytes(&mut data, ancillary_data.as_slice());
        push_u64_le(&mut data, self.request_nonce);
        assert(data@ =~= request_preimage(identifier@, timestamp, ancillary_data@, self.request_nonce));
        sha256(&data)
    }

    /// Opens a price request in the commit phase, starting at `now`.
    ///
    /// Its id is the digest of the parameters and the current nonce, which then
    /// advances, so that equal parameters give a new id each time. A request
    /// whose id is already taken is rejected.
    pub fn request_price(
        &mut self,
        requester: AccountId,
        now: u64,
        identifier: String,
        timestamp: u64,
        ancillary_data: Vec<u8>,
    ) -> (r: Result<CryptoHash, VotingError>)
        requires
            old(self).wf(),
            old(self).request_nonce < u64::MAX,
        ensures
            final(self).wf(),
            ({
                let id = sha256_of(request_preimage(identifier@, timestamp, ancillary_data@, old(self).request_nonce));
                match r {
                    Ok(h) => {
                        &&& h@ == id
                        &&& !old(self).has_request(id)
                        &&& final(self).records@.len() == old(self).records@.len() + 1
                        &&& final(self).records@.drop_last() == old(self).records@
                        &&& final(self).request_nonce == old(self).request_nonce + 1
                        &&& ({
                            let rec = final(self).records@.last();
                            &&& rec.request_id == h
                            &&& rec.request.identifier == identifier
                            &&& rec.request.timestamp == timestamp
                            &&& rec.request.ancillary_data@ == ancillary_data@
                            &&& rec.request.requester == requester
                            &&& rec.request.status == RequestStatus::Active
                            &&& rec.request.phase == VotingPhase::Commit
                            &&& rec.request.commit_start_time == now
                            &&& rec.request.reveal_start_time == 0
                            &&& rec.request.resolved_price is None
                            &&& rec.request.revealed_stake == 0
                            &&& rec.request.low_participation_extensions == 0
                            &&& !rec.request.emergency_required
                            &&& rec.voters@.len() == 0
                            &&& rec.total_committed_stake == 0
                        })
                    },
                    Err(e) => e == VotingError::RequestAlreadyExists && old(self).has_request(id)
                        && *final(self) == *old(self),
                }
            }),
            r is Ok ==> ({
                let n = *final(self);
                let o = *old(self);
                &&& n.owner == o.owner
                &&& n.commit_phase_duration == o.commit_phase_duration
                &&& n.reveal_phase_duration == o.reveal_phase_duration
                &&& n.min_participation_rate == o.min_participation_rate
                &&& n.voting_token == o.voting_token
                &&& n.treasury == o.treasury
                &&& n.slashing_treasury_bps == o.slashing_treasury_bps
                &&& n.max_low_participation_extensions == o.max_low_participation_extensions
            }),
    {
        let request_id = self.generate_request_id(&identifier, timestamp, &ancillary_data);
        if let Some(i) = self.find_request(&request_id) {
            proof {
                self.lemma_index_of(request_id@, i as int);
            }
            return Err(VotingError::RequestAlreadyExists);
        }
        let request = PriceRequest {
            identifier,
            timestamp,
            ancillary_data,
            requester,
            status: RequestStatus::Active,
            phase: VotingPhase::Commit,
            commit_start_time: now,
            reveal_start_time: 0,
            resolved_price: None,
            revealed_stake: 0,
            low_participation_extensions: 0,
            emergency_required: false,
        };
        let rec = RequestRecord { request_id, request, voters: Vec::new(), total_committed_stake: 0 };
        let ghost before = self.records@;
        self.records.push(rec);
        self.request_nonce = self.request_nonce + 1;
        proof {
            assert(self.records@.drop_last() =~= before);
            assert(record_wf(self.records@.last()));
        }
        Ok(request_id)
    }

    /// Why a commitment would be refused, if it would be.
    pub open spec fn commit_check(&self, id: Seq<u8>, voter: Seq<char>, staked_amount: u128, now: u64) -> Option<VotingError> {
        if !self.has_request(id) {
            Some(VotingError::RequestNotFound)
        } else if self.record(id).request.phase != VotingPhase::Commit {
            Some(VotingError::NotInCommitPhase)
        } else if self.commit_ended(self.record(id).request, now) {
            Some(VotingError::CommitPhaseEnded)
        } else if has_voter(self.record(id).voters@, voter) {
            Some(VotingError::AlreadyCommitted)
        } else if self.record(id).total_committed_stake + staked_amount > u128::MAX {
            Some(VotingError::StakeOverflow)
        } else {
            None
        }
    }

    /// Why a disclosure would be refused, if it would be.
    pub open spec fn reveal_check(&self, id: Seq<u8>, voter: Seq<char>, price: i128, salt: Seq<u8>, now: u64) -> Option<VotingError> {
        if !self.has_request(id) {
            Some(VotingError::RequestNotFound)
        } else if self.record(id).request.phase != VotingPhase::Reveal {
            Some(VotingError::NotInRevealPhase)
        } else if self.reveal_ended(self.record(id).request, now) {
            Some(VotingError::RevealPhaseEnded)
        } else if !has_voter(self.record(id).voters@, voter) {
            Some(VotingError::NoCommitment)
        } else if self.record(id).voters@[voter_index(self.record(id).voters@, voter)].commitment.revealed {
            Some(VotingError::AlreadyRevealed)
        } else if vote_hash(price, salt) != self.record(id).voters@[voter_index(
            self.record(id).voters@,
            voter,
        )].commitment.commit_hash@ {
            Some(VotingError::HashMismatch)
        } else {
            None
        }
    }

    /// Refuses every direct commitment: stake must arrive with the vote, as a
    /// transfer from the voting token.
    pub fn commit_vote(&mut self, request_id: CryptoHash, commit_hash: CryptoHash, staked_amount: u128) -> (r: Result<(), VotingError>)
        ensures
            r == Err::<(), VotingError>(VotingError::DirectCommitDisabled),
            *final(self) == *old(self),
    {
        Err(VotingError::DirectCommitDisabled)
    }

    /// Takes a stake transfer from the voting token as a vote commitment.
    ///
    /// `token` is the account that sent the notification; it must be the
    /// configured voting token, and the amount must be positive. Returns the
    /// amount to refund, always zero.
    pub fn ft_on_transfer(
        &mut self,
        token: AccountId,
        sender_id: AccountId,
        amount: u128,
        msg: FtOnTransferMsg,
        now: u64,
    ) -> (r: Result<u128, VotingError>)
        requires
            old(self).wf(),
        ensures
            final(self).wf(),
            match msg {
                FtOnTransferMsg::CommitVote { request_id, commit_hash } => {
                    &&& (old(self).voting_token is None || old(self).voting_token.unwrap()@ != token@)
                        ==> r == Err::<u128, VotingError>(VotingError::WrongToken)
                    &&& (old(self).voting_token is Some && old(self).voting_token.unwrap()@ == token@ && amount == 0)
                        ==> r == Err::<u128, VotingError>(VotingError::ZeroStake)
                    &&& (old(self).voting_token is Some && old(self).voting_token.unwrap()@ == token@ && amount > 0)
                        ==> Self::committed(*old(self), *final(self), request_id, commit_hash, sender_id, amount, now, drop_value(r))
                    &&& r is Ok ==> r == Ok::<u128, VotingError>(0)
                }
            },
            r is Err ==> *final(self) == *old(self),
    {
        let ok_token = match &self.voting_token {
            Some(t) => t.eq(&token),
            None => false,
        };
        if !ok_token {
            return Err(VotingError::WrongToken);
        }
        if amount == 0 {
            return Err(VotingError::ZeroStake);
        }
        match msg {
            FtOnTransferMsg::CommitVote { request_id, commit_hash } => {
                match self.internal_commit_vote(request_id, sender_id, commit_hash, amount, now) {
                    Ok(()) => Ok(0),
                    Err(e) => Err(e),
                }
            }
        }
    }

    /// `new` is `old` after a commitment call with these arguments returned `r`.
    pub open spec fn committed(
        old: Self,
        new: Self,
        request_id: CryptoHash,
        commit_hash: CryptoHash,
        voter: AccountId,
        staked_amount: u128,
        now: u64,
        r: Result<(), VotingError>,
    ) -> bool {
        match old.commit_check(request_id@, voter@, staked_amount, now) {
            Some(e) => r == Err::<(), VotingError>(e) && new == old,
            None => {
                let idx = old.index_of(request_id@);
                let o = old.records@[idx];
                let n = new.records@[idx];
                &&& r is Ok
                &&& new.only_record_changed(&old, idx)
                &&& n.request == o.request
                &&& n.total_committed_stake == o.total_committed_stake + staked_amount
                &&& n.voters@.drop_last() == o.voters@
                &&& n.voters@.len() == o.voters@.len() + 1
                &&& n.voters@.last().voter == voter
                &&& n.voters@.last().commitment == (VoteCommitment {
                    commit_hash,
                    staked_amount,
                    revealed: false,
                    revealed_price: None,
                })
            },
        }
    }

    /// Records a commitment of `staked_amount` by `voter`, during the commit phase.
    fn internal_commit_vote(
        &mut self,
        request_id: CryptoHash,
        voter: AccountId,
        commit_hash: CryptoHash,
        staked_amount: u128,
        now: u64,
    ) -> (r: Result<(), VotingError>)
        requires
            old(self).wf(),
            staked_amount > 0,
        ensures
            final(self).wf(),
            Self::committed(*old(self), *final(self), request_id, commit_hash, voter, staked_amount, now, r),
    {
        let i = match self.find_request(&request_id) {
            Some(i) => i,
            None => return Err(VotingError::RequestNotFound),
        };
        proof {
            self.lemma_index_of(request_id@, i as int);
        }
        if self.records[i].request.phase != VotingPhase::Commit {
            return Err(VotingError::NotInCommitPhase);
        }
        if now as u128 >= self.records[i].request.commit_start_time as u128 + self.commit_phase_duration as u128 {
            return Err(VotingError::CommitPhaseEnded);
        }
        if let Some(k) = find_voter(&self.records[i].voters, &voter) {
            return Err(VotingError::AlreadyCommitted);
        }
        let total = self.records[i].total_committed_stake;
        if total > u128::MAX - staked_amount {
            return Err(VotingError::StakeOverflow);
        }
        let ghost old_rec = self.records@[i as int];
        let entry = VoterEntry {
            voter,
            commitment: VoteCommitment { commit_hash, staked_amount, revealed: false, revealed_price: None },
        };
        let rec = &mut self.records[i];
        rec.voters.push(entry);
        rec.total_committed_stake = total + staked_amount;
        proof {
            let n = self.records@[i as int];
            assert(n.voters@.drop_last() =~= old_rec.voters@);
            assert(voters_unique(n.voters@)) by {
                assert forall|a: int, b: int| 0 <= a < b < n.voters@.len() implies n.voters@[a].voter@ != n.voters@[b].voter@ by {
                    if b == n.voters@.len() - 1 {
                        assert(n.voters@[a] == old_rec.voters@[a]);
                    } else {
                        assert(n.voters@[a] == old_rec.voters@[a]);
                        assert(n.voters@[b] == old_rec.voters@[b]);
                    }
                }
            }
            assert(record_wf(n)) by {
                assert forall|a: int| 0 <= a < n.voters@.len() implies {
                    &&& (#[trigger] n.voters@[a]).commitment.staked_amount > 0
                    &&& (n.voters@[a].commitment.revealed <==> n.voters@[a].commitment.revealed_price is Some)
                } by {
                    if a < old_rec.voters@.len() {
                        assert(n.voters@[a] == old_rec.voters@[a]);
                    }
                }
            }
        }
        Ok(())
    }
}

impl Voting {
    /// The commitment digest of a vote: SHA-256 over the price's sixteen
    /// little-endian bytes followed by the salt.
    pub fn compute_vote_hash_static(price: i128, salt: CryptoHash) -> (r: CryptoHash)
        ensures
            r@ == vote_hash(price, salt@),
    {
        let mut data: Vec<u8> = Vec::new();
        push_i128_le(&mut data, price);
        push_bytes(&mut data, salt.as_slice());
        assert(data@ =~= vote_preimage(price, salt@));
        sha256(&data)
    }

    /// Why moving to the reveal phase would be refused, if it would be.
    pub open spec fn advance_check(&self, id: Seq<u8>, now: u64) -> Option<VotingError> {
        if !self.has_request(id) {
            Some(VotingError::RequestNotFound)
        } else if self.record(id).request.phase != VotingPhase::Commit {
            Some(VotingError::NotInCommitPhase)
        } else if !self.commit_ended(self.record(id).request, now) {
            Some(VotingError::CommitPhaseNotEnded)
        } else {
            None
        }
    }

    /// Moves a request to the reveal phase once its commit window is over; the
    /// reveal window starts at `now`. Anyone may call it.
    pub fn advance_to_reveal(&mut self, request_id: CryptoHash, now: u64) -> (r: Result<(), VotingError>)
        requires
            old(self).wf(),
        ensures
            final(self).wf(),
            match old(self).advance_check(request_id@, now) {
                Some(e) => r == Err::<(), VotingError>(e) && *final(self) == *old(self),
                None => {
                    let idx = old(self).index_of(request_id@);
                    let o = old(self).records@[idx];
                    let n = final(self).records@[idx];
                    &&& r is Ok
                    &&& final(self).only_record_changed(old(self), idx)
                    &&& n.voters == o.voters
                    &&& n.total_committed_stake == o.total_committed_stake
                    &&& n.request == (PriceRequest { phase: VotingPhase::Reveal, reveal_start_time: now, ..o.request })
                },
            },
    {
        let i = match self.find_request(&request_id) {
            Some(i) => i,
            None => return Err(VotingError::RequestNotFound),
        };
        proof {
            self.lemma_index_of(request_id@, i as int);
        }
        if self.records[i].request.phase != VotingPhase::Commit {
            return Err(VotingError::NotInCommitPhase);
        }
        if (now as u128) < self.records[i].request.commit_start_time as u128 + self.commit_phase_duration as u128 {
            return Err(VotingError::CommitPhaseNotEnded);
        }
        let rec = &mut self.records[i];
        rec.request.phase = VotingPhase::Reveal;
        rec.request.reveal_start_time = now;
        Ok(())
    }

    /// Discloses `voter`'s vote during the reveal window: the digest of
    /// `price` and `salt` must equal the commitment. The voter's stake then
    /// counts as revealed.
    pub fn reveal_vote(
        &mut self,
        voter: AccountId,
        request_id: CryptoHash,
        price: i128,
        salt: CryptoHash,
        now: u64,
    ) -> (r: Result<(), VotingError>)
        requires
            old(self).wf(),
        ensures
            final(self).wf(),
            match old(self).reveal_check(request_id@, voter@, price, salt@, now) {
                Some(e) => r == Err::<(), VotingError>(e) && *final(self) == *old(self),
                None => {
                    let idx = old(self).index_of(request_id@);
                    let o = old(self).records@[idx];
                    let n = final(self).records@[idx];
                    let k = voter_index(o.voters@, voter@);
                    let c = o.voters@[k].commitment;
                    &&& r is Ok
                    &&& final(self).only_record_changed(old(self), idx)
                    &&& n.total_committed_stake == o.total_committed_stake
                    &&& n.request == (PriceRequest { revealed_stake: (o.request.revealed_stake + c.staked_amount) as u128, ..o.request })
                    &&& n.voters@ == o.voters@.update(k, VoterEntry {
                        voter: o.voters@[k].voter,
                        commitment: VoteCommitment { revealed: true, revealed_price: Some(price), ..c },
                    })
                },
            },
    {
        let i = match self.find_request(&request_id) {
            Some(i) => i,
            None => return Err(VotingError::RequestNotFound),
        };
        proof {
            self.lemma_index_of(request_id@, i as int);
        }
        if self.records[i].request.phase != VotingPhase::Reveal {
            return Err(VotingError::NotInRevealPhase);
        }
        if now as u128 >= self.records[i].request.reveal_start_time as u128 + self.reveal_phase_duration as u128 {
            return Err(VotingError::RevealPhaseEnded);
        }
        let computed_hash = Self::compute_vote_hash_static(price, salt);
        let k = match find_voter(&self.records[i].voters, &voter) {
            Some(k) => k,
            None => return Err(VotingError::NoCommitment),
        };
        proof {
            lemma_voter_index(self.records@[i as int].voters@, voter@, k as int);
        }
        if self.records[i].voters[k].commitment.revealed {
            return Err(VotingError::AlreadyRevealed);
        }
        if !bytes32_eq(&computed_hash, &self.records[i].voters[k].commitment.commit_hash) {
            return Err(VotingError::HashMismatch);
        }
        let ghost old_rec = self.records@[i as int];
        let ghost new_entry = VoterEntry {
            voter: old_rec.voters@[k as int].voter,
            commitment: VoteCommitment {
                revealed: true,
                revealed_price: Some(price),
                ..old_rec.voters@[k as int].commitment
            },
        };
        proof {
            lemma_reveal_update(old_rec.voters@, k as int, new_entry);
            lemma_revealed_le_committed(old_rec.voters@.update(k as int, new_entry));
        }
        let rec = &mut self.records[i];
        let stake = rec.voters[k].commitment.staked_amount;
        rec.voters[k].commitment.revealed = true;
        rec.voters[k].commitment.revealed_price = Some(price);
        rec.request.revealed_stake = rec.request.revealed_stake + stake;
        proof {
            let n = self.records@[i as int];
            assert(n.voters@ =~= old_rec.voters@.update(k as int, new_entry));
            assert(voters_unique(n.voters@)) by {
                assert forall|a: int, b: int| 0 <= a < b < n.voters@.len() implies n.voters@[a].voter@ != n.voters@[b].voter@ by {
                    assert(n.voters@[a].voter == old_rec.voters@[a].voter);
                    assert(n.voters@[b].voter == old_rec.voters@[b].voter);
                }
            }
            assert(record_wf(n)) by {
                assert forall|a: int| 0 <= a < n.voters@.len() implies {
                    &&& (#[trigger] n.voters@[a]).commitment.staked_amount > 0
                    &&& (n.voters@[a].commitment.revealed <==> n.voters@[a].commitment.revealed_price is Some)
                } by {
                    if a != k {
                        assert(n.voters@[a] == old_rec.voters@[a]);
                    }
                }
            }
        }
        Ok(())
    }
}

/// The disclosed votes of `s`, in commit order.
pub open spec fn revealed_votes(s: Seq<VoterEntry>) -> Seq<RevealedVote>
    decreases s.len(),
{
    if s.len() == 0 {
        Seq::empty()
    } else {
        let rest = revealed_votes(s.drop_last());
        let e = s.last();
        if e.commitment.revealed && e.commitment.revealed_price is Some {
            rest.push(RevealedVote {
                price: e.commitment.revealed_price.unwrap(),
                stake: e.commitment.staked_amount,
                voter: e.voter,
            })
        } else {
            rest
        }
    }
}

/// What resolving with too little revealed stake leads to, after `extensions`
/// automatic extensions out of at most `max`.
pub open spec fn low_participation_outcome(extensions: u8, max: u8) -> ResolvePriceOutcome {
    if extensions < max {
        ResolvePriceOutcome::RevealExtended
    } else {
        ResolvePriceOutcome::EmergencyRequired
    }
}

/// A request after a resolution attempt with too little revealed stake at `now`.
pub open spec fn after_low_participation(r: PriceRequest, max: u8, now: u64) -> PriceRequest {
    if r.low_participation_extensions < max {
        PriceRequest {
            low_participation_extensions: (r.low_participation_extensions + 1) as u8,
            reveal_start_time: now,
            ..r
        }
    } else {
        PriceRequest { emergency_required: true, ..r }
    }
}

/// A request resolved to `price`.
pub open spec fn resolved_request(r: PriceRequest, price: i128) -> PriceRequest {
    PriceRequest {
        phase: VotingPhase::Resolved,
        status: RequestStatus::Resolved,
        resolved_price: Some(price),
        emergency_required: false,
        ..r
    }
}

proof fn lemma_revealed_votes_stake(s: Seq<VoterEntry>)
    requires
        forall|i: int| 0 <= i < s.len() ==> ((#[trigger] s[i]).commitment.revealed <==> s[i].commitment.revealed_price is Some),
    ensures
        total_stake(revealed_votes(s)) == revealed_stake_of(s),
    decreases s.len(),
{
    if s.len() > 0 {
        let d = s.drop_last();
        assert forall|i: int| 0 <= i < d.len() implies ((#[trigger] d[i]).commitment.revealed <==> d[i].commitment.revealed_price is Some) by {
            assert(d[i] == s[i]);
        }
        lemma_revealed_votes_stake(d);
        let e = s.last();
        assert(e == s[s.len() - 1]);
        if e.commitment.revealed {
            assert(revealed_votes(s).drop_last() =~= revealed_votes(d));
        }
    }
}

impl Voting {
    /// Why resolving would be refused before anything is counted, if it would be.
    pub open spec fn resolve_check(&self, id: Seq<u8>, now: u64) -> Option<VotingError> {
        if !self.has_request(id) {
            Some(VotingError::RequestNotFound)
        } else if self.record(id).request.phase != VotingPhase::Reveal {
            Some(VotingError::NotInRevealPhase)
        } else if !self.reveal_ended(self.record(id).request, now) {
            Some(VotingError::RevealPhaseNotEnded)
        } else if self.record(id).total_committed_stake == 0 {
            Some(VotingError::NoCommittedStake)
        } else {
            None
        }
    }

    /// The revealed stake that a request needs: `total * min_participation_rate / 10000`.
    pub open spec fn required_participation(&self, total: u128) -> int {
        total as int * self.min_participation_rate as int / 10000
    }

    /// `new` is `old` after a resolution attempt at `now` returned `r`.
    #[verifier::opaque]
    pub open spec fn resolve_post(old: Self, new: Self, id: Seq<u8>, now: u64, r: Result<Resolution, VotingError>) -> bool {
        match old.resolve_check(id, now) {
            Some(e) => r is Err && r->Err_0 == e && new == old,
            None => {
                let idx = old.index_of(id);
                let o = old.records@[idx];
                let n = new.records@[idx];
                let votes = revealed_votes(o.voters@);
                if o.request.revealed_stake < old.required_participation(o.total_committed_stake) {
                    &&& r is Ok
                    &&& r->Ok_0.outcome == low_participation_outcome(
                        o.request.low_participation_extensions,
                        old.max_low_participation_extensions,
                    )
                    &&& r->Ok_0.distribution is None
                    &&& new.only_record_changed(&old, idx)
                    &&& n.voters == o.voters
                    &&& n.total_committed_stake == o.total_committed_stake
                    &&& n.request == after_low_participation(o.request, old.max_low_participation_extensions, now)
                } else if votes.len() == 0 {
                    r is Err && r->Err_0 == VotingError::NoRevealedVotes && new == old
                } else {
                    &&& r is Ok
                    &&& r->Ok_0.outcome is Resolved
                    &&& is_weighted_median(votes, r->Ok_0.outcome->price)
                    &&& new.only_record_changed(&old, idx)
                    &&& n.voters == o.voters
                    &&& n.total_committed_stake == o.total_committed_stake
                    &&& n.request == resolved_request(o.request, r->Ok_0.outcome->price)
                    &&& (r->Ok_0.distribution is Some) == (old.voting_token is Some && old.treasury is Some)
                    &&& r->Ok_0.distribution is Some ==> ({
                        let d = r->Ok_0.distribution->Some_0;
                        let p = r->Ok_0.outcome->price;
                        &&& d.winner_stake == winner_stake(o.voters@, p)
                        &&& d.total_slashed == slashed_stake(o.voters@, p)
                        &&& d.treasury_cut == d.total_slashed as int * old.slashing_treasury_bps as int / 10000
                        &&& d.reward_pool == d.total_slashed - d.treasury_cut
                        &&& d.payouts@.map_values(|t: TokenTransfer| transfer_view(t)) == expected_payouts(
                            o.voters@, p, d.reward_pool as int, d.winner_stake as int)
                    })
                }
            },
        }
    }

    /// Resolves a request once its reveal window is over.
    ///
    /// With less revealed stake than required, the reveal window is opened
    /// again from `now` while extensions remain; after that the request is
    /// flagged for emergency resolution. Otherwise the request resolves to the
    /// stake-weighted median of the disclosed votes and, when a voting token
    /// and a treasury are configured, the stake is redistributed.
    pub fn resolve_price(&mut self, request_id: CryptoHash, now: u64) -> (r: Result<Resolution, VotingError>)
        requires
            old(self).wf(),
        ensures
            final(self).wf(),
            Self::resolve_post(*old(self), *final(self), request_id@, now, r),
    {
        proof {
            reveal(Voting::resolve_post);
        }
        let i = match self.find_request(&request_id) {
            Some(i) => i,
            None => return Err(VotingError::RequestNotFound),
        };
        proof {
            self.lemma_index_of(request_id@, i as int);
            assert(record_wf(self.records@[i as int]));
        }
        if self.records[i].request.phase != VotingPhase::Reveal {
            return Err(VotingError::NotInRevealPhase);
        }
        if (now as u128) < self.records[i].request.reveal_start_time as u128 + self.reveal_phase_duration as u128 {
            return Err(VotingError::RevealPhaseNotEnded);
        }
        let total = self.records[i].total_committed_stake;
        if total == 0 {
            return Err(VotingError::NoCommittedStake);
        }
        let required = bps_share(total, self.min_participation_rate as u128);
        if self.records[i].request.revealed_stake < required {
            let max = self.max_low_participation_extensions;
            let rec = &mut self.records[i];
            if rec.request.low_participation_extensions < max {
                rec.request.low_participation_extensions = rec.request.low_participation_extensions + 1;
                rec.request.reveal_start_time = now;
                return Ok(Resolution { outcome: ResolvePriceOutcome::RevealExtended, distribution: None });
            }
            rec.request.emergency_required = true;
            return Ok(Resolution { outcome: ResolvePriceOutcome::EmergencyRequired, distribution: None });
        }
        let ghost o = self.records@[i as int];
        let mut votes: Vec<RevealedVote> = Vec::new();
        let mut j: usize = 0;
        while j < self.records[i].voters.len()
            invariant
                i < self.records@.len(),
                self.records@[i as int] == o,
                j <= o.voters@.len(),
                votes@ == revealed_votes(o.voters@.subrange(0, j as int)),
            decreases o.voters@.len() - j,
        {
            proof {
                assert(o.voters@.subrange(0, j + 1).drop_last() =~= o.voters@.subrange(0, j as int));
            }
            let e = &self.records[i].voters[j];
            if e.commitment.revealed {
                if let Some(p) = e.commitment.revealed_price {
                    votes.push(RevealedVote { price: p, stake: e.commitment.staked_amount, voter: e.voter.clone() });
                }
            }
            j = j + 1;
        }
        proof {
            assert(o.voters@.subrange(0, o.voters@.len() as int) =~= o.voters@);
            lemma_revealed_votes_stake(o.voters@);
            lemma_revealed_le_committed(o.voters@);
        }
        if votes.len() == 0 {
            return Err(VotingError::NoRevealedVotes);
        }
        let resolved_price = stake_weighted_median(&votes);
        let distribution = if self.voting_token.is_some() && self.treasury.is_some() {
            Some(distribute_rewards_and_slashing(&self.records[i].voters, resolved_price, self.slashing_treasury_bps))
        } else {
            None
        };
        let rec = &mut self.records[i];
        rec.request.phase = VotingPhase::Resolved;
        rec.request.status = RequestStatus::Resolved;
        rec.request.resolved_price = Some(resolved_price);
        rec.request.emergency_required = false;
        Ok(Resolution { outcome: ResolvePriceOutcome::Resolved { price: resolved_price }, distribution })
    }

    /// Why an emergency resolution would be refused, if it would be.
    pub open spec fn emergency_check(&self, caller: Seq<char>, id: Seq<u8>) -> Option<VotingError> {
        if caller != self.owner@ {
            Some(VotingError::Unauthorized)
        } else if !self.has_request(id) {
            Some(VotingError::RequestNotFound)
        } else if self.record(id).request.phase != VotingPhase::Reveal {
            Some(VotingError::EmergencyNotFromReveal)
        } else if !self.record(id).request.emergency_required {
            Some(VotingError::EmergencyNotEnabled)
        } else {
            None
        }
    }

    /// The owner's override for a request flagged for emergency resolution:
    /// resolves it to `resolved_price`. `reason` is for the audit log that the
    /// host keeps.
    pub fn emergency_resolve_price(
        &mut self,
        caller: AccountId,
        request_id: CryptoHash,
        resolved_price: i128,
        reason: String,
    ) -> (r: Result<i128, VotingError>)
        requires
            old(self).wf(),
        ensures
            final(self).wf(),
            match old(self).emergency_check(caller@, request_id@) {
                Some(e) => r == Err::<i128, VotingError>(e) && *final(self) == *old(self),
                None => {
                    let idx = old(self).index_of(request_id@);
                    let o = old(self).records@[idx];
                    let n = final(self).records@[idx];
                    &&& r == Ok::<i128, VotingError>(resolved_price)
                    &&& final(self).only_record_changed(old(self), idx)
                    &&& n.voters == o.voters
                    &&& n.total_committed_stake == o.total_committed_stake
                    &&& n.request == resolved_request(o.request, resolved_price)
                },
            },
    {
        if !caller.eq(&self.owner) {
            return Err(VotingError::Unauthorized);
        }
        let i = match self.find_request(&request_id) {
            Some(i) => i,
            None => return Err(VotingError::RequestNotFound),
        };
        proof {
            self.lemma_index_of(request_id@, i as int);
        }
        if self.records[i].request.phase != VotingPhase::Reveal {
            return Err(VotingError::EmergencyNotFromReveal);
        }
        if !self.records[i].request.emergency_required {
            return Err(VotingError::EmergencyNotEnabled);
        }
        let rec = &mut self.records[i];
        rec.request.phase = VotingPhase::Resolved;
        rec.request.status = RequestStatus::Resolved;
        rec.request.resolved_price = Some(resolved_price);
        rec.request.emergency_required = false;
        Ok(resolved_price)
    }
}

impl Voting {
    /// The request with this id, if any.
    pub fn get_request(&self, request_id: CryptoHash) -> (r: Option<&PriceRequest>)
        requires
            self.wf(),
        ensures
            match r {
                Some(q) => self.has_request(request_id@) && *q == self.record(request_id@).request,
                None => !self.has_request(request_id@),
            },
    {
        match self.find_request(&request_id) {
            Some(i) => {
                proof {
                    self.lemma_index_of(request_id@, i as int);
                }
                Some(&self.records[i].request)
            },
            None => None,
        }
    }

    /// The resolved price of a request, if it has one.
    pub fn get_price(&self, request_id: CryptoHash) -> (r: Option<i128>)
        requires
            self.wf(),
        ensures
            r == if self.has_request(request_id@) { self.record(request_id@).request.resolved_price } else { None },
    {
        match self.get_request(request_id) {
            Some(q) => q.resolved_price,
            None => None,
        }
    }

    /// Whether a request has resolved.
    pub fn has_price(&self, request_id: CryptoHash) -> (r: bool)
        requires
            self.wf(),
        ensures
            r == (self.has_request(request_id@) && self.record(request_id@).request.status == RequestStatus::Resolved),
    {
        match self.get_request(request_id) {
            Some(q) => q.status == RequestStatus::Resolved,
            None => false,
        }
    }

    /// The phase of a request, if it exists.
    pub fn get_phase(&self, request_id: CryptoHash) -> (r: Option<VotingPhase>)
        requires
            self.wf(),
        ensures
            r == if self.has_request(request_id@) { Some(self.record(request_id@).request.phase) } else { None },
    {
        match self.get_request(request_id) {
            Some(q) => Some(q.phase),
            None => None,
        }
    }

    /// The stake committed to a request; zero for an unknown request.
    pub fn get_total_committed_stake(&self, request_id: CryptoHash) -> (r: u128)
        requires
            self.wf(),
        ensures
            r == if self.has_request(request_id@) { self.record(request_id@).total_committed_stake } else { 0 },
    {
        match self.find_request(&request_id) {
            Some(i) => {
                proof {
                    self.lemma_index_of(request_id@, i as int);
                }
                self.records[i].total_committed_stake
            },
            None => 0,
        }
    }

    /// The commit duration, the reveal duration and the minimum participation rate.
    pub fn get_config(&self) -> (r: (u64, u64, u64))
        ensures
            r == (self.commit_phase_duration, self.reveal_phase_duration, self.min_participation_rate),
    {
        (self.commit_phase_duration, self.reveal_phase_duration, self.min_participation_rate)
    }

    /// The owner.
    pub fn get_owner(&self) -> (r: AccountId)
        ensures
            r == self.owner,
    {
        self.owner.clone()
    }

    /// The outcome of an owner-only setter that changes nothing else.
    pub open spec fn owner_set(old: Self, new: Self, caller: AccountId, updated: Self, r: Result<(), VotingError>) -> bool {
        if caller@ != old.owner@ {
            r == Err::<(), VotingError>(VotingError::Unauthorized) && new == old
        } else {
            r is Ok && new == updated
        }
    }

    /// Sets the commit phase duration. Owner only.
    pub fn set_commit_phase_duration(&mut self, caller: AccountId, duration_ns: u64) -> (r: Result<(), VotingError>)
        requires
            old(self).wf(),
        ensures
            final(self).wf(),
            Self::owner_set(*old(self), *final(self), caller, Voting { commit_phase_duration: duration_ns, ..*old(self) }, r),
    {
        if !caller.eq(&self.owner) {
            return Err(VotingError::Unauthorized);
        }
        self.commit_phase_duration = duration_ns;
        Ok(())
    }

    /// Sets the reveal phase duration. Owner only.
    pub fn set_reveal_phase_duration(&mut self, caller: AccountId, duration_ns: u64) -> (r: Result<(), VotingError>)
        requires
            old(self).wf(),
        ensures
            final(self).wf(),
            Self::owner_set(*old(self), *final(self), caller, Voting { reveal_phase_duration: duration_ns, ..*old(self) }, r),
    {
        if !caller.eq(&self.owner) {
            return Err(VotingError::Unauthorized);
        }
        self.reveal_phase_duration = duration_ns;
        Ok(())
    }

    /// Sets the minimum participation rate, at most 10000 basis points. Owner only.
    pub fn set_min_participation_rate(&mut self, caller: AccountId, rate_bps: u64) -> (r: Result<(), VotingError>)
        requires
            old(self).wf(),
        ensures
            final(self).wf(),
            caller@ == old(self).owner@ && rate_bps > 10000 ==> r == Err::<(), VotingError>(VotingError::RateTooHigh)
                && *final(self) == *old(self),
            !(caller@ == old(self).owner@ && rate_bps > 10000) ==> Self::owner_set(*old(self), *final(self), caller,
                Voting { min_participation_rate: rate_bps, ..*old(self) }, r),
    {
        if !caller.eq(&self.owner) {
            return Err(VotingError::Unauthorized);
        }
        if rate_bps > 10000 {
            return Err(VotingError::RateTooHigh);
        }
        self.min_participation_rate = rate_bps;
        Ok(())
    }

    /// Sets the voting token whose transfers carry stake. Owner only.
    pub fn set_voting_token(&mut self, caller: AccountId, voting_token: AccountId) -> (r: Result<(), VotingError>)
        requires
            old(self).wf(),
        ensures
            final(self).wf(),
            Self::owner_set(*old(self), *final(self), caller, Voting { voting_token: Some(voting_token), ..*old(self) }, r),
    {
        if !caller.eq(&self.owner) {
            return Err(VotingError::Unauthorized);
        }
        self.voting_token = Some(voting_token);
        Ok(())
    }

    /// Sets the treasury that receives its share of slashed stake. Owner only.
    pub fn set_treasury(&mut self, caller: AccountId, treasury: AccountId) -> (r: Result<(), VotingError>)
        requires
            old(self).wf(),
        ensures
            final(self).wf(),
            Self::owner_set(*old(self), *final(self), caller, Voting { treasury: Some(treasury), ..*old(self) }, r),
    {
        if !caller.eq(&self.owner) {
            return Err(VotingError::Unauthorized);
        }
        self.treasury = Some(treasury);
        Ok(())
    }

    /// Sets the treasury's share of slashed stake, at most 10000 basis points. Owner only.
    pub fn set_slashing_treasury_bps(&mut self, caller: AccountId, bps: u16) -> (r: Result<(), VotingError>)
        requires
            old(self).wf(),
        ensures
            final(self).wf(),
            caller@ == old(self).owner@ && bps > 10000 ==> r == Err::<(), VotingError>(VotingError::BpsTooHigh)
                && *final(self) == *old(self),
            !(caller@ == old(self).owner@ && bps > 10000) ==> Self::owner_set(*old(self), *final(self), caller,
                Voting { slashing_treasury_bps: bps, ..*old(self) }, r),
    {
        if !caller.eq(&self.owner) {
            return Err(VotingError::Unauthorized);
        }
        if bps > 10000 {
            return Err(VotingError::BpsTooHigh);
        }
        self.slashing_treasury_bps = bps;
        Ok(())
    }

    /// Sets how many automatic reveal extensions a request may get. Owner only.
    pub fn set_max_low_participation_extensions(&mut self, caller: AccountId, max_extensions: u8) -> (r: Result<(), VotingError>)
        requires
            old(self).wf(),
        ensures
            final(self).wf(),
            Self::owner_set(*old(self), *final(self), caller, Voting { max_low_participation_extensions: max_extensions, ..*old(self) }, r),
    {
        if !caller.eq(&self.owner) {
            return Err(VotingError::Unauthorized);
        }
        self.max_low_participation_extensions = max_extensions;
        Ok(())
    }

    /// Hands ownership to `new_owner`. Owner only.
    pub fn set_owner(&mut self, caller: AccountId, new_owner: AccountId) -> (r: Result<(), VotingError>)
        requires
            old(self).wf(),
        ensures
            final(self).wf(),
            Self::owner_set(*old(self), *final(self), caller, Voting { owner: new_owner, ..*old(self) }, r),
    {
        if !caller.eq(&self.owner) {
            return Err(VotingError::Unauthorized);
        }
        self.owner = new_owner;
        Ok(())
    }
}

impl Voting {
    proof fn lemma_low_participation_attempt(a: Self, b: Self, id: Seq<u8>, now: u64, r: Result<Resolution, VotingError>)
        requires
            a.wf(),
            b.wf(),
            a.has_request(id),
            a.resolve_check(id, now) is None,
            a.record(id).request.revealed_stake < a.required_participation(a.record(id).total_committed_stake),
            Self::resolve_post(a, b, id, now, r),
        ensures
            b.has_request(id),
            b.max_low_participation_extensions == a.max_low_participation_extensions,
            b.record(id).request == after_low_participation(a.record(id).request, a.max_low_participation_extensions, now),
            r is Ok,
            r->Ok_0.outcome == low_participation_outcome(
                a.record(id).request.low_participation_extensions,
                a.max_low_participation_extensions,
            ),
    {
        reveal(Voting::resolve_post);
        let idx = a.index_of(id);
        assert(b.records@[idx].request_id@ == id);
        b.lemma_index_of(id, idx);
    }

    proof fn lemma_extension_prefix(s: Seq<Self>, rs: Seq<Result<Resolution, VotingError>>, id: Seq<u8>, nows: Seq<u64>, max: u8, k: int)
        requires
            s.len() == max + 2,
            rs.len() == max + 1,
            nows.len() == max + 1,
            forall|j: int| 0 <= j < s.len() ==> (#[trigger] s[j]).wf(),
            s[0].has_request(id),
            s[0].record(id).request.low_participation_extensions == 0,
            s[0].max_low_participation_extensions == max,
            forall|j: int| 0 <= j <= max ==> {
                &&& Self::resolve_post(#[trigger] s[j], s[j + 1], id, nows[j], rs[j])
                &&& s[j].resolve_check(id, nows[j]) is None
                &&& s[j].record(id).request.revealed_stake < s[j].required_participation(s[j].record(id).total_committed_stake)
            },
            0 <= k <= max,
        ensures
            s[k].has_request(id),
            s[k].max_low_participation_extensions == max,
            s[k].record(id).request.low_participation_extensions == k,
            forall|j: int| 0 <= j < k ==> (#[trigger] rs[j]) is Ok && rs[j]->Ok_0.outcome == ResolvePriceOutcome::RevealExtended,
        decreases k,
    {
        if k > 0 {
            Self::lemma_extension_prefix(s, rs, id, nows, max, k - 1);
            assert(s[k - 1].wf() && s[k].wf());
            Self::lemma_low_participation_attempt(s[k - 1], s[k], id, nows[k - 1], rs[k - 1]);
        }
    }

    /// The extension budget is bounded: when a request with `max` allowed
    /// extensions is resolved `max + 1` times in a row with too little revealed
    /// stake, the first `max` attempts extend the reveal window, and the last
    /// one flags the request for emergency resolution without resolving it.
    pub proof fn lemma_participation_extension_bound(
        s: Seq<Self>,
        rs: Seq<Result<Resolution, VotingError>>,
        id: Seq<u8>,
        nows: Seq<u64>,
        max: u8,
    )
        requires
            s.len() == max + 2,
            rs.len() == max + 1,
            nows.len() == max + 1,
            forall|j: int| 0 <= j < s.len() ==> (#[trigger] s[j]).wf(),
            s[0].has_request(id),
            s[0].record(id).request.low_participation_extensions == 0,
            s[0].max_low_participation_extensions == max,
            forall|j: int| 0 <= j <= max ==> {
                &&& Self::resolve_post(#[trigger] s[j], s[j + 1], id, nows[j], rs[j])
                &&& s[j].resolve_check(id, nows[j]) is None
                &&& s[j].record(id).request.revealed_stake < s[j].required_participation(s[j].record(id).total_committed_stake)
            },
        ensures
            forall|j: int| 0 <= j < max ==> (#[trigger] rs[j]) is Ok && rs[j]->Ok_0.outcome == ResolvePriceOutcome::RevealExtended,
            forall|j: int| 0 <= j <= max ==> (#[trigger] s[j]).record(id).request.low_participation_extensions == j,
            s[max + 1].record(id).request.low_participation_extensions == max,
            rs[max as int] is Ok,
            rs[max as int]->Ok_0.outcome == ResolvePriceOutcome::EmergencyRequired,
            s[max + 1].record(id).request.emergency_required,
            s[max + 1].record(id).request.resolved_price is None,
            s[max + 1].record(id).request.phase == VotingPhase::Reveal,
    {
        Self::lemma_extension_prefix(s, rs, id, nows, max, max as int);
        assert forall|j: int| 0 <= j <= max implies (#[trigger] s[j]).record(id).request.low_participation_extensions == j by {
            Self::lemma_extension_prefix(s, rs, id, nows, max, j);
        }
        let k = max as int;
        assert(s[k].wf() && s[k + 1].wf());
        Self::lemma_low_participation_attempt(s[k], s[k + 1], id, nows[k], rs[k]);
        assert(record_wf(s[k].records@[s[k].index_of(id)]));
    }
}

impl Voting {
    /// Once its extensions are used up, a request stays blocked: every further
    /// resolution attempt with too little revealed stake again requires
    /// emergency resolution, and leaves the request flagged, unresolved, with
    /// its extension count unchanged.
    pub proof fn lemma_emergency_persists(a: Self, b: Self, id: Seq<u8>, now: u64, r: Result<Resolution, VotingError>)
        requires
            a.wf(),
            b.wf(),
            a.has_request(id),
            a.record(id).request.low_participation_extensions >= a.max_low_participation_extensions,
            a.resolve_check(id, now) is None,
            a.record(id).request.revealed_stake < a.required_participation(a.record(id).total_committed_stake),
            Self::resolve_post(a, b, id, now, r),
        ensures
            r is Ok,
            r->Ok_0.outcome == ResolvePriceOutcome::EmergencyRequired,
            b.record(id).request.emergency_required,
            b.record(id).request.resolved_price is None,
            b.record(id).request.low_participation_extensions == a.record(id).request.low_participation_extensions,
            b.max_low_participation_extensions == a.max_low_participation_extensions,
    {
        Self::lemma_low_participation_attempt(a, b, id, now, r);
        assert(record_wf(a.records@[a.index_of(id)]));
    }
}

proof fn lemma_median_has_winner(s: Seq<VoterEntry>, p: i128, i: int)
    requires
        forall|k: int| 0 <= k < s.len() ==> {
            &&& (#[trigger] s[k]).commitment.staked_amount > 0
            &&& (s[k].commitment.revealed <==> s[k].commitment.revealed_price is Some)
        },
        0 <= i < revealed_votes(s).len(),
        revealed_votes(s)[i].price == p,
    ensures
        winner_stake(s, p) > 0,
    decreases s.len(),
{
    let d = s.drop_last();
    lemma_stake_split(d, p);
    assert forall|k: int| 0 <= k < d.len() implies {
        &&& (#[trigger] d[k]).commitment.staked_amount > 0
        &&& (d[k].commitment.revealed <==> d[k].commitment.revealed_price is Some)
    } by {
        assert(d[k] == s[k]);
    }
    let e = s.last();
    assert(e == s[s.len() - 1]);
    if i < revealed_votes(d).len() {
        if e.commitment.revealed && e.commitment.revealed_price is Some {
            assert(revealed_votes(s)[i] == revealed_votes(d)[i]);
        }
        lemma_median_has_winner(d, p, i);
    }
}

impl Voting {
    /// A resolution conserves stake: when a request resolves and its stake is
    /// handed out, the winners' payouts plus the treasury's cut equal the stake
    /// committed to the request, less the dust that integer division leaves,
    /// which is less than one unit per winner.
    pub proof fn lemma_resolution_conserves_stake(old: Self, new: Self, id: Seq<u8>, now: u64, r: Result<Resolution, VotingError>)
        requires
            old.wf(),
            Self::resolve_post(old, new, id, now, r),
            r is Ok,
            r->Ok_0.outcome is Resolved,
            r->Ok_0.distribution is Some,
        ensures
            ({
                let d = r->Ok_0.distribution->Some_0;
                let paid = payout_sum(d.payouts@.map_values(|t: TokenTransfer| transfer_view(t)));
                let dust = old.record(id).total_committed_stake - (paid + d.treasury_cut);
                &&& 0 <= dust < winner_count(old.record(id).voters@, r->Ok_0.outcome->price)
            }),
    {
        reveal(Voting::resolve_post);
        let rec = old.record(id);
        assert(record_wf(rec));
        let p = r->Ok_0.outcome->price;
        let votes = revealed_votes(rec.voters@);
        let i = choose|i: int| 0 <= i < votes.len() && votes[i].price == p;
        lemma_median_has_winner(rec.voters@, p, i);
        lemma_slash_conservation(rec.voters@, p, old.slashing_treasury_bps);
    }
}

proof fn lemma_reveal_update(s: Seq<VoterEntry>, k: int, e: VoterEntry)
    requires
        0 <= k < s.len(),
        !s[k].commitment.revealed,
        e.commitment.revealed,
        e.commitment.staked_amount == s[k].commitment.staked_amount,
    ensures
        revealed_stake_of(s.update(k, e)) == revealed_stake_of(s) + s[k].commitment.staked_amount,
        committed_stake(s.update(k, e)) == committed_stake(s),
    decreases s.len(),
{
    let u = s.update(k, e);
    if k == s.len() - 1 {
        assert(u.drop_last() =~= s.drop_last());
    } else {
        assert(u.drop_last() =~= s.drop_last().update(k, e));
        lemma_reveal_update(s.drop_last(), k, e);
    }
}

proof fn lemma_revealed_le_committed(s: Seq<VoterEntry>)
    ensures
        0 <= revealed_stake_of(s) <= committed_stake(s),
    decreases s.len(),
{
    if s.len() > 0 {
        lemma_revealed_le_committed(s.drop_last());
    }
}

/// The outcome of a call, without its value.
pub open spec fn drop_value<T>(r: Result<T, VotingError>) -> Result<(), VotingError> {
    match r {
        Ok(_) => Ok(()),
        Err(e) => Err(e),
    }
}

/// The position of the voter named `voter` in `s`.
pub open spec fn voter_index(s: Seq<VoterEntry>, voter: Seq<char>) -> int {
    choose|i: int| 0 <= i < s.len() && s[i].voter@ == voter
}

proof fn lemma_voter_index(s: Seq<VoterEntry>, voter: Seq<char>, i: int)
    requires
        voters_unique(s),
        0 <= i < s.len(),
        s[i].voter@ == voter,
    ensures
        has_voter(s, voter),
        voter_index(s, voter) == i,
{
    let k = voter_index(s, voter);
    assert(0 <= k < s.len() && s[k].voter@ == voter);
    if k < i {
        assert(s[k].voter@ != s[i].voter@);
    } else if i < k {
        assert(s[i].voter@ != s[k].voter@);
    }
}

/// The position of the voter named `voter` in `voters`, if any.
fn find_voter(voters: &Vec<VoterEntry>, voter: &AccountId) -> (r: Option<usize>)
    ensures
        match r {
            Some(i) => i < voters@.len() && voters@[i as int].voter@ == voter@,
            None => !has_voter(voters@, voter@),
        },
{
    let mut i: usize = 0;
    while i < voters.len()
        invariant
            i <= voters@.len(),
            forall|j: int| 0 <= j < i ==> voters@[j].voter@ != voter@,
        decreases voters@.len() - i,
    {
        if voters[i].voter.eq(voter) {
            return Some(i);
        }
        i = i + 1;
    }
    None
}

} // verus!
