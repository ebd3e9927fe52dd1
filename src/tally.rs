//! Counting revealed votes: the stake-weighted median and the redistribution
//! of slashed stake.
use vstd::prelude::*;
use crate::types::{AccountId, CryptoHash};
use vstd::arithmetic::div_mod::{
    lemma_fundamental_div_mod, lemma_fundamental_div_mod_converse, lemma_hoist_over_denominator,
};

verus! {

/// The denominator of every basis-point rate.
pub const BASIS_POINTS_DENOMINATOR: u128 = 10_000;

/// A voter's commitment on one request.
pub struct VoteCommitment {
    /// Digest of the price and the salt.
    pub commit_hash: CryptoHash,
    /// Stake locked with the commitment.
    pub staked_amount: u128,
    /// Whether the vote has been disclosed.
    pub revealed: bool,
    /// The disclosed price, set once the digest has been checked.
    pub revealed_price: Option<i128>,
}

/// One entry of a request's voter list, in commit order.
pub struct VoterEntry {
    pub voter: AccountId,
    pub commitment: VoteCommitment,
}

/// A disclosed vote: its price and the stake behind it.
pub struct RevealedVote {
    pub price: i128,
    pub stake: u128,
    pub voter: AccountId,
}

/// A token transfer that the host should perform.
pub struct TokenTransfer {
    pub recipient: AccountId,
    pub amount: u128,
}

/// How the stake of a resolved request is handed out.
pub struct Distribution {
    /// Stake of every voter who did not reveal the resolved price.
    pub total_slashed: u128,
    /// The treasury's share of the slashed stake.
    pub treasury_cut: u128,
    /// The winners' share of the slashed stake.
    pub reward_pool: u128,
    /// Stake of the voters who revealed the resolved price.
    pub winner_stake: u128,
    /// One payout per winner, in commit order.
    pub payouts: Vec<TokenTransfer>,
}

// ---------------------------------------------------------------------------
// The stake-weighted median
// ---------------------------------------------------------------------------

/// Sum of the stakes of `votes`.
pub open spec fn total_stake(votes: Seq<RevealedVote>) -> int
    decreases votes.len(),
{
    if votes.len() == 0 {
        0
    } else {
        total_stake(votes.drop_last()) + votes.last().stake
    }
}

/// Sum of the stakes of the votes whose price is at most `p`.
pub open spec fn stake_at_most(votes: Seq<RevealedVote>, p: i128) -> int
    decreases votes.len(),
{
    if votes.len() == 0 {
        0
    } else {
        stake_at_most(votes.drop_last(), p) + if votes.last().price <= p {
            votes.last().stake as int
        } else {
            0
        }
    }
}

/// Half of `total`, rounded up.
pub open spec fn midpoint(total: int) -> int {
    total / 2 + total % 2
}

/// `r` is the stake-weighted median of `votes`: the lowest voted price at which
/// the stake of the votes at or below it reaches half of all stake, rounded up.
pub open spec fn is_weighted_median(votes: Seq<RevealedVote>, r: i128) -> bool {
    &&& exists|i: int| 0 <= i < votes.len() && votes[i].price == r
    &&& stake_at_most(votes, r) >= midpoint(total_stake(votes))
    &&& forall|i: int|
        0 <= i < votes.len() && votes[i].price < r ==> stake_at_most(votes, votes[i].price)
            < midpoint(total_stake(votes))
}

proof fn lemma_stake_at_most_bounds(votes: Seq<RevealedVote>, p: i128)
    ensures
        0 <= stake_at_most(votes, p) <= total_stake(votes),
    decreases votes.len(),
{
    if votes.len() > 0 {
        lemma_stake_at_most_bounds(votes.drop_last(), p);
    }
}

proof fn lemma_stake_at_most_all(votes: Seq<RevealedVote>, p: i128)
    requires
        forall|i: int| 0 <= i < votes.len() ==> votes[i].price <= p,
    ensures
        stake_at_most(votes, p) == total_stake(votes),
    decreases votes.len(),
{
    if votes.len() > 0 {
        let d = votes.drop_last();
        assert forall|i: int| 0 <= i < d.len() implies d[i].price <= p by {
            assert(d[i] == votes[i]);
        }
        lemma_stake_at_most_all(d, p);
    }
}

/// A set of votes has at most one weighted median.
pub proof fn lemma_weighted_median_unique(votes: Seq<RevealedVote>, r1: i128, r2: i128)
    requires
        is_weighted_median(votes, r1),
        is_weighted_median(votes, r2),
    ensures
        r1 == r2,
{
    let i1 = choose|i: int| 0 <= i < votes.len() && votes[i].price == r1;
    let i2 = choose|i: int| 0 <= i < votes.len() && votes[i].price == r2;
    if r1 < r2 {
        assert(votes[i1].price < r2);
    } else if r2 < r1 {
        assert(votes[i2].price < r1);
    }
}

/// Sum of the stakes of `votes`.
fn sum_of_stakes(votes: &Vec<RevealedVote>) -> (r: u128)
    requires
        total_stake(votes@) <= u128::MAX,
    ensures
        r == total_stake(votes@),
{
    let mut sum: u128 = 0;
    let mut i: usize = 0;
    while i < votes.len()
        invariant
            i <= votes@.len(),
            total_stake(votes@) <= u128::MAX,
            sum == total_stake(votes@.subrange(0, i as int)),
        decreases votes@.len() - i,
    {
        proof {
            assert(votes@.subrange(0, i + 1).drop_last() =~= votes@.subrange(0, i as int));
            lemma_total_prefix_le(votes@, i + 1);
        }
        sum = sum + votes[i].stake;
        i = i + 1;
    }
    assert(votes@.subrange(0, votes@.len() as int) =~= votes@);
    sum
}

proof fn lemma_total_prefix_le(votes: Seq<RevealedVote>, n: int)
    requires
        0 <= n <= votes.len(),
    ensures
        0 <= total_stake(votes.subrange(0, n)) <= total_stake(votes),
    decreases votes.len(),
{
    if n == votes.len() {
        assert(votes.subrange(0, n) =~= votes);
        lemma_total_nonneg(votes);
    } else {
        assert(votes.drop_last().subrange(0, n) =~= votes.subrange(0, n));
        lemma_total_prefix_le(votes.drop_last(), n);
    }
}

proof fn lemma_total_nonneg(votes: Seq<RevealedVote>)
    ensures
        total_stake(votes) >= 0,
    decreases votes.len(),
{
    if votes.len() > 0 {
        lemma_total_nonneg(votes.drop_last());
    }
}

/// Sum of the stakes of the votes whose price is at most `p`.
fn stake_at_most_exec(votes: &Vec<RevealedVote>, p: i128) -> (r: u128)
    requires
        total_stake(votes@) <= u128::MAX,
    ensures
        r == stake_at_most(votes@, p),
{
    let mut sum: u128 = 0;
    let mut i: usize = 0;
    while i < votes.len()
        invariant
            i <= votes@.len(),
            total_stake(votes@) <= u128::MAX,
            sum == stake_at_most(votes@.subrange(0, i as int), p),
        decreases votes@.len() - i,
    {
        proof {
            assert(votes@.subrange(0, i + 1).drop_last() =~= votes@.subrange(0, i as int));
            lemma_total_prefix_le(votes@, i + 1);
            lemma_stake_at_most_bounds(votes@.subrange(0, i + 1), p);
        }
        if votes[i].price <= p {
            sum = sum + votes[i].stake;
        }
        i = i + 1;
    }
    assert(votes@.subrange(0, votes@.len() as int) =~= votes@);
    sum
}

/// The stake-weighted median of a non-empty list of disclosed votes.
///
/// Sorted by price, it is the price at which the running stake first reaches
/// `total / 2 + total % 2`. When the stake at or below some price is exactly
/// half of an even total, that price is reached first, so the tie goes to the
/// lower of the two prices around the middle.
pub fn stake_weighted_median(votes: &Vec<RevealedVote>) -> (r: i128)
    requires
        votes@.len() > 0,
        total_stake(votes@) <= u128::MAX,
    ensures
        is_weighted_median(votes@, r),
{
    let total = sum_of_stakes(votes);
    let mid = total / 2 + total % 2;
    let mut found = false;
    let mut best: i128 = 0;
    let mut best_idx: usize = 0;
    let mut maxp: i128 = votes[0].price;
    let mut max_idx: usize = 0;
    let mut i: usize = 0;
    while i < votes.len()
        invariant
            i <= votes@.len(),
            votes@.len() > 0,
            total_stake(votes@) <= u128::MAX,
            total == total_stake(votes@),
            mid == midpoint(total as int),
            max_idx < votes@.len(),
            votes@[max_idx as int].price == maxp,
            forall|k: int| 0 <= k < i ==> votes@[k].price <= maxp,
            found ==> best_idx < i && votes@[best_idx as int].price == best
                && stake_at_most(votes@, best) >= mid,
            forall|k: int|
                0 <= k < i && stake_at_most(votes@, votes@[k].price) >= mid ==> found && best
                    <= votes@[k].price,
        decreases votes@.len() - i,
    {
        let p = votes[i].price;
        if p > maxp {
            maxp = p;
            max_idx = i;
        }
        let s = stake_at_most_exec(votes, p);
        if s >= mid && (!found || p < best) {
            best = p;
            best_idx = i;
            found = true;
        }
        i = i + 1;
    }
    proof {
        lemma_stake_at_most_all(votes@, maxp);
        assert(stake_at_most(votes@, votes@[max_idx as int].price) >= mid);
    }
    best
}

// ---------------------------------------------------------------------------
// Redistribution of slashed stake
// ---------------------------------------------------------------------------

/// `amount * bps / 10000`, computed without overflow.
pub fn bps_share(amount: u128, bps: u128) -> (r: u128)
    requires
        bps <= BASIS_POINTS_DENOMINATOR,
    ensures
        r == amount as int * bps as int / 10000,
        r <= amount,
{
    let q = amount / BASIS_POINTS_DENOMINATOR;
    let rem = amount % BASIS_POINTS_DENOMINATOR;
    proof {
        lemma_fundamental_div_mod(amount as int, 10000);
        assert(q * bps <= q * 10000) by (nonlinear_arith)
            requires bps <= 10000;
        assert(rem * bps < 10000 * 10000) by (nonlinear_arith)
            requires rem < 10000, bps <= 10000;
        assert(amount as int * bps as int == (rem * bps) as int + (q * bps) as int * 10000)
            by (nonlinear_arith)
            requires amount == 10000 * q + rem;
        lemma_hoist_over_denominator((rem * bps) as int, (q * bps) as int, 10000);
        assert(amount as int * bps as int / 10000 <= amount as int * 10000 / 10000) by (nonlinear_arith)
            requires bps <= 10000;
    }
    q * bps + rem * bps / BASIS_POINTS_DENOMINATOR
}

/// `x * y / c` for `x < c` and `y <= c`, without overflow: binary long
/// multiplication over the bits of `y`, keeping every partial product as a
/// quotient and a remainder by `c`.
fn mul_div_below(x: u128, y: u128, c: u128) -> (r: u128)
    requires
        x < c,
        y <= c,
    ensures
        r == x as int * y as int / c as int,
        r <= x,
{
    let mut rem_y: u128 = y;
    let mut acc_q: u128 = 0;
    let mut acc_r: u128 = 0;
    let mut pq: u128 = 0;
    let mut pr: u128 = x;
    let ghost mut p: int = 1;
    let ghost mut low: int = 0;
    while rem_y > 0
        invariant
            x < c,
            y <= c,
            p >= 1,
            0 <= low < p,
            y == rem_y * p + low,
            x * low == acc_q * c + acc_r,
            acc_r < c,
            acc_q <= x,
            rem_y > 0 ==> x * p == pq * c + pr && pr < c && pq <= x,
        decreases rem_y,
    {
        let bit = rem_y % 2;
        let half = rem_y / 2;
        let ghost low0 = low;
        proof {
            assert(rem_y == 2 * half + bit);
        }
        if bit == 1 {
            let ghost low2 = low + p;
            proof {
                assert(low2 <= y) by (nonlinear_arith)
                    requires y == rem_y * p + low, rem_y >= 1, p >= 1, low2 == low + p;
                assert(x * low2 == x * low + x * p) by (nonlinear_arith)
                    requires low2 == low + p;
                assert(x * low2 <= x * c) by (nonlinear_arith)
                    requires low2 <= y, y <= c, x >= 0;
            }
            if acc_r >= c - pr {
                proof {
                    let q2 = acc_q + pq + 1;
                    assert(x * low2 == q2 * c + (acc_r + pr - c)) by (nonlinear_arith)
                        requires x * low2 == x * low + x * p, x * low == acc_q * c + acc_r,
                            x * p == pq * c + pr, q2 == acc_q + pq + 1;
                    assert(q2 <= x) by (nonlinear_arith)
                        requires x * low2 == q2 * c + (acc_r + pr - c), acc_r + pr - c >= 0,
                            x * low2 <= x * c, c > 0;
                }
                acc_r = acc_r - (c - pr);
                acc_q = acc_q + pq + 1;
            } else {
                proof {
                    let q2 = acc_q + pq;
                    assert(x * low2 == q2 * c + (acc_r + pr)) by (nonlinear_arith)
                        requires x * low2 == x * low + x * p, x * low == acc_q * c + acc_r,
                            x * p == pq * c + pr, q2 == acc_q + pq;
                    assert(q2 <= x) by (nonlinear_arith)
                        requires x * low2 == q2 * c + (acc_r + pr), acc_r + pr >= 0,
                            x * low2 <= x * c, c > 0;
                }
                acc_r = acc_r + pr;
                acc_q = acc_q + pq;
            }
            proof {
                low = low2;
            }
        }
        proof {
            if bit == 1 {
                assert(low == low0 + p);
                assert(y == half * (2 * p) + low) by (nonlinear_arith)
                    requires y == rem_y * p + low0, rem_y == 2 * half + 1, low == low0 + p;
            } else {
                assert(low == low0);
                assert(y == half * (2 * p) + low) by (nonlinear_arith)
                    requires y == rem_y * p + low0, rem_y == 2 * half, low == low0;
            }
            assert(low < 2 * p);
        }
        rem_y = half;
        if rem_y > 0 {
            proof {
                assert(2 * p <= y) by (nonlinear_arith)
                    requires y == rem_y * (2 * p) + low, rem_y >= 1, p >= 1, low >= 0;
                assert(x * (2 * p) <= x * c) by (nonlinear_arith)
                    requires 2 * p <= y, y <= c, x >= 0;
            }
            if pr >= c - pr {
                proof {
                    assert(x * (2 * p) == (2 * pq + 1) * c + (2 * pr - c)) by (nonlinear_arith)
                        requires x * p == pq * c + pr;
                    assert(2 * pq + 1 <= x) by (nonlinear_arith)
                        requires x * (2 * p) == (2 * pq + 1) * c + (2 * pr - c), 2 * pr - c >= 0,
                            x * (2 * p) <= x * c, c > 0;
                }
                pr = pr - (c - pr);
                pq = 2 * pq + 1;
            } else {
                proof {
                    assert(x * (2 * p) == (2 * pq) * c + 2 * pr) by (nonlinear_arith)
                        requires x * p == pq * c + pr;
                    assert(2 * pq <= x) by (nonlinear_arith)
                        requires x * (2 * p) == (2 * pq) * c + 2 * pr, pr >= 0,
                            x * (2 * p) <= x * c, c > 0;
                }
                pr = 2 * pr;
                pq = 2 * pq;
            }
        }
        proof {
            p = 2 * p;
        }
    }
    proof {
        assert(low == y);
        lemma_fundamental_div_mod_converse(x as int * y as int, c as int, acc_q as int, acc_r as int);
    }
    acc_q
}

/// `a * b / c` for `b <= c`, computed without overflow; at most `a`.
pub fn mul_div(a: u128, b: u128, c: u128) -> (r: u128)
    requires
        c > 0,
        b <= c,
    ensures
        r == a as int * b as int / c as int,
        r <= a,
{
    let qa = a / c;
    let ra = a % c;
    let low = mul_div_below(ra, b, c);
    proof {
        lemma_fundamental_div_mod(a as int, c as int);
        assert(qa * b <= qa * c) by (nonlinear_arith)
            requires b <= c;
        assert(a as int * b as int == (ra * b) as int + (qa * b) as int * c) by (nonlinear_arith)
            requires a == c * qa + ra;
        lemma_hoist_over_denominator((ra * b) as int, (qa * b) as int, c as nat);
        assert(a as int * b as int / c as int <= a as int * c as int / c as int) by (nonlinear_arith)
            requires b <= c, c > 0;
        assert(a as int * c as int / c as int == a) by (nonlinear_arith)
            requires c > 0;
    }
    qa * b + low
}

/// The voter revealed exactly the resolved price.
pub open spec fn is_winner(e: VoterEntry, price: i128) -> bool {
    e.commitment.revealed && e.commitment.revealed_price == Some(price)
}

/// Sum of the stakes committed by the voters of `s`.
pub open spec fn committed_stake(s: Seq<VoterEntry>) -> int
    decreases s.len(),
{
    if s.len() == 0 {
        0
    } else {
        committed_stake(s.drop_last()) + s.last().commitment.staked_amount
    }
}

/// Sum of the stakes of the winners of `s`.
pub open spec fn winner_stake(s: Seq<VoterEntry>, price: i128) -> int
    decreases s.len(),
{
    if s.len() == 0 {
        0
    } else {
        winner_stake(s.drop_last(), price) + if is_winner(s.last(), price) {
            s.last().commitment.staked_amount as int
        } else {
            0
        }
    }
}

/// Sum of the stakes of every voter of `s` who is not a winner.
pub open spec fn slashed_stake(s: Seq<VoterEntry>, price: i128) -> int
    decreases s.len(),
{
    if s.len() == 0 {
        0
    } else {
        slashed_stake(s.drop_last(), price) + if is_winner(s.last(), price) {
            0
        } else {
            s.last().commitment.staked_amount as int
        }
    }
}

/// Number of winners in `s`.
pub open spec fn winner_count(s: Seq<VoterEntry>, price: i128) -> int
    decreases s.len(),
{
    if s.len() == 0 {
        0
    } else {
        winner_count(s.drop_last(), price) + if is_winner(s.last(), price) {
            1int
        } else {
            0
        }
    }
}

/// A winner's share of the reward pool: `pool * stake / winner_total`.
pub open spec fn reward_of(pool: int, stake: int, winner_total: int) -> int {
    if winner_total > 0 {
        pool * stake / winner_total
    } else {
        0
    }
}

/// A winner's payout: the stake back plus the share of the reward pool.
pub open spec fn payout_of(stake: int, pool: int, winner_total: int) -> int {
    stake + reward_of(pool, stake, winner_total)
}

/// The payouts owed to the winners of `s`, in order: recipient and amount.
pub open spec fn expected_payouts(s: Seq<VoterEntry>, price: i128, pool: int, winner_total: int) -> Seq<(Seq<char>, int)>
    decreases s.len(),
{
    if s.len() == 0 {
        Seq::empty()
    } else {
        let rest = expected_payouts(s.drop_last(), price, pool, winner_total);
        if is_winner(s.last(), price) {
            rest.push((s.last().voter@, payout_of(s.last().commitment.staked_amount as int, pool, winner_total)))
        } else {
            rest
        }
    }
}

/// A transfer as recipient and amount.
pub open spec fn transfer_view(t: TokenTransfer) -> (Seq<char>, int) {
    (t.recipient@, t.amount as int)
}

/// Sum of the amounts of a list of payouts.
pub open spec fn payout_sum(p: Seq<(Seq<char>, int)>) -> int
    decreases p.len(),
{
    if p.len() == 0 {
        0
    } else {
        payout_sum(p.drop_last()) + p.last().1
    }
}

pub(crate) proof fn lemma_stake_split(s: Seq<VoterEntry>, price: i128)
    ensures
        winner_stake(s, price) + slashed_stake(s, price) == committed_stake(s),
        0 <= winner_stake(s, price),
        0 <= slashed_stake(s, price),
        0 <= winner_count(s, price),
        winner_count(s, price) == 0 ==> winner_stake(s, price) == 0,
    decreases s.len(),
{
    if s.len() > 0 {
        lemma_stake_split(s.drop_last(), price);
    }
}

proof fn lemma_prefix_step(s: Seq<VoterEntry>, i: int)
    requires
        0 <= i < s.len(),
    ensures
        s.subrange(0, i + 1).drop_last() == s.subrange(0, i),
        s.subrange(0, i + 1).last() == s[i],
{
    assert(s.subrange(0, i + 1).drop_last() =~= s.subrange(0, i));
}

proof fn lemma_prefix_stake_le(s: Seq<VoterEntry>, price: i128, n: int)
    requires
        0 <= n <= s.len(),
    ensures
        winner_stake(s.subrange(0, n), price) <= winner_stake(s, price),
        slashed_stake(s.subrange(0, n), price) <= slashed_stake(s, price),
    decreases s.len(),
{
    if n == s.len() {
        assert(s.subrange(0, n) =~= s);
    } else {
        assert(s.drop_last().subrange(0, n) =~= s.subrange(0, n));
        lemma_prefix_stake_le(s.drop_last(), price, n);
        lemma_stake_split(s.drop_last(), price);
    }
}

/// Splits the stake of a resolved request between the winners and the treasury.
///
/// Every voter who did not reveal `resolved_price` (including those who did
/// not reveal at all) is slashed. The treasury takes
/// `total_slashed * treasury_bps / 10000`; the rest forms the reward pool, and
/// each winner receives their stake back plus `pool * stake / winner_stake`,
/// computed exactly, in commit order. What integer
/// division leaves of the pool is paid to nobody.
pub fn distribute_rewards_and_slashing(
    voters: &Vec<VoterEntry>,
    resolved_price: i128,
    treasury_bps: u16,
) -> (r: Distribution)
    requires
        committed_stake(voters@) <= u128::MAX,
        treasury_bps <= 10000,
    ensures
        r.winner_stake == winner_stake(voters@, resolved_price),
        r.total_slashed == slashed_stake(voters@, resolved_price),
        r.treasury_cut == r.total_slashed as int * treasury_bps as int / 10000,
        r.reward_pool == r.total_slashed - r.treasury_cut,
        r.payouts@.map_values(|t: TokenTransfer| transfer_view(t)) == expected_payouts(
            voters@,
            resolved_price,
            r.reward_pool as int,
            r.winner_stake as int,
        ),
{
    proof {
        lemma_stake_split(voters@, resolved_price);
    }
    let mut winners: u128 = 0;
    let mut slashed: u128 = 0;
    let mut i: usize = 0;
    while i < voters.len()
        invariant
            i <= voters@.len(),
            committed_stake(voters@) <= u128::MAX,
            winner_stake(voters@, resolved_price) + slashed_stake(voters@, resolved_price)
                == committed_stake(voters@),
            winners == winner_stake(voters@.subrange(0, i as int), resolved_price),
            slashed == slashed_stake(voters@.subrange(0, i as int), resolved_price),
        decreases voters@.len() - i,
    {
        proof {
            lemma_prefix_step(voters@, i as int);
            lemma_prefix_stake_le(voters@, resolved_price, i + 1);
            lemma_stake_split(voters@.subrange(0, i + 1), resolved_price);
        }
        let c = &voters[i].commitment;
        let won = c.revealed && match c.revealed_price {
            Some(p) => p == resolved_price,
            None => false,
        };
        if won {
            winners = winners + c.staked_amount;
        } else {
            slashed = slashed + c.staked_amount;
        }
        i = i + 1;
    }
    assert(voters@.subrange(0, voters@.len() as int) =~= voters@);
    let treasury_cut = bps_share(slashed, treasury_bps as u128);
    let reward_pool = slashed - treasury_cut;
    let mut payouts: Vec<TokenTransfer> = Vec::new();
    let mut j: usize = 0;
    while j < voters.len()
        invariant
            j <= voters@.len(),
            winners == winner_stake(voters@, resolved_price),
            reward_pool as int + winners as int <= u128::MAX,
            payouts@.map_values(|t: TokenTransfer| transfer_view(t)) == expected_payouts(
                voters@.subrange(0, j as int),
                resolved_price,
                reward_pool as int,
                winners as int,
            ),
        decreases voters@.len() - j,
    {
        proof {
            lemma_prefix_step(voters@, j as int);
            lemma_prefix_stake_le(voters@, resolved_price, j + 1);
            lemma_stake_split(voters@.subrange(0, j as int), resolved_price);
        }
        let e = &voters[j];
        let won = e.commitment.revealed && match e.commitment.revealed_price {
            Some(p) => p == resolved_price,
            None => false,
        };
        if won {
            let stake = e.commitment.staked_amount;
            proof {
                assert(winner_stake(voters@.subrange(0, j + 1), resolved_price)
                    == winner_stake(voters@.subrange(0, j as int), resolved_price) + stake);
            }
            let reward = if winners > 0 {
                mul_div(reward_pool, stake, winners)
            } else {
                0
            };
            let amount = stake + reward;
            let ghost before = payouts@;
            payouts.push(TokenTransfer { recipient: e.voter.clone(), amount });
            proof {
                assert(payouts@.map_values(|t: TokenTransfer| transfer_view(t)) =~= before.map_values(
                    |t: TokenTransfer| transfer_view(t),
                ).push(transfer_view(payouts@.last())));
            }
        }
        j = j + 1;
    }
    assert(voters@.subrange(0, voters@.len() as int) =~= voters@);
    Distribution {
        total_slashed: slashed,
        treasury_cut,
        reward_pool,
        winner_stake: winners,
        payouts,
    }
}

proof fn lemma_payout_bounds(s: Seq<VoterEntry>, price: i128, pool: int, w: int)
    requires
        w > 0,
        pool >= 0,
        winner_stake(s, price) <= w,
    ensures
        ({
            let r = payout_sum(expected_payouts(s, price, pool, w)) - winner_stake(s, price);
            &&& r * w <= pool * winner_stake(s, price)
            &&& r * w + w * winner_count(s, price) >= pool * winner_stake(s, price)
            &&& winner_count(s, price) > 0 ==> r * w + w * winner_count(s, price) > pool * winner_stake(s, price)
        }),
    decreases s.len(),
{
    if s.len() > 0 {
        let d = s.drop_last();
        lemma_stake_split(d, price);
        lemma_stake_split(s, price);
        lemma_payout_bounds(d, price, pool, w);
        let rd = payout_sum(expected_payouts(d, price, pool, w)) - winner_stake(d, price);
        let wsd = winner_stake(d, price);
        let wcd = winner_count(d, price);
        if is_winner(s.last(), price) {
            let st = s.last().commitment.staked_amount as int;
            assert(pool * st <= pool * w) by (nonlinear_arith)
                requires st <= w, pool >= 0;
            let f = pool * st / w;
            lemma_fundamental_div_mod(pool * st, w);
            assert(f <= pool) by (nonlinear_arith)
                requires f * w <= pool * st, st <= w, pool >= 0, w > 0, pool * st == w * f + (pool * st) % w, (pool * st) % w >= 0;
            assert(reward_of(pool, st, w) == f);
            assert(payout_of(st, pool, w) == st + f);
            let exp = expected_payouts(s, price, pool, w);
            assert(exp.drop_last() == expected_payouts(d, price, pool, w));
            assert(payout_sum(exp) == payout_sum(expected_payouts(d, price, pool, w)) + st + f);
            assert((rd + f) * w <= pool * (wsd + st)) by (nonlinear_arith)
                requires rd * w <= pool * wsd, w * f + (pool * st) % w == pool * st, (pool * st) % w >= 0;
            assert((rd + f) * w + w * (wcd + 1) >= pool * (wsd + st)) by (nonlinear_arith)
                requires rd * w + w * wcd >= pool * wsd, w * f + (pool * st) % w == pool * st, (pool * st) % w < w;
            assert(winner_stake(s, price) == wsd + st);
            assert(winner_count(s, price) == wcd + 1);
            assert(payout_sum(exp) - winner_stake(s, price) == rd + f);
            let r = payout_sum(exp) - winner_stake(s, price);
            assert(r * w <= pool * winner_stake(s, price));
            assert(r * w + w * winner_count(s, price) >= pool * winner_stake(s, price));
            assert((rd + f) * w + w * (wcd + 1) > pool * (wsd + st)) by (nonlinear_arith)
                requires rd * w + w * wcd >= pool * wsd, w * f + (pool * st) % w == pool * st, (pool * st) % w < w;
        } else {
            assert(expected_payouts(s, price, pool, w) == expected_payouts(d, price, pool, w));
            assert(winner_stake(s, price) == wsd);
            assert(winner_count(s, price) == wcd);
        }
    } else {
        assert(expected_payouts(s, price, pool, w) =~= Seq::empty());
        assert(payout_sum(expected_payouts(s, price, pool, w)) == 0);
        assert(winner_stake(s, price) == 0);
        assert(winner_count(s, price) == 0);
    }
}

/// Slashing conserves stake: for a resolved request, the winners' payouts plus
/// the treasury's cut equal all committed stake, less the dust that integer
/// division leaves of the reward pool, which is less than one unit per winner.
pub proof fn lemma_slash_conservation(voters: Seq<VoterEntry>, resolved_price: i128, treasury_bps: u16)
    requires
        committed_stake(voters) <= u128::MAX,
        treasury_bps <= 10000,
        winner_stake(voters, resolved_price) > 0,
    ensures
        ({
            let slashed = slashed_stake(voters, resolved_price);
            let cut = slashed * treasury_bps / 10000;
            let w = winner_stake(voters, resolved_price);
            let paid = payout_sum(expected_payouts(voters, resolved_price, slashed - cut, w));
            let dust = committed_stake(voters) - (paid + cut);
            &&& 0 <= dust < winner_count(voters, resolved_price)
        }),
{
    lemma_stake_split(voters, resolved_price);
    let slashed = slashed_stake(voters, resolved_price);
    let cut = slashed * treasury_bps / 10000;
    let w = winner_stake(voters, resolved_price);
    assert(cut <= slashed) by (nonlinear_arith)
        requires cut == slashed * treasury_bps / 10000, treasury_bps <= 10000, slashed >= 0;
    assert(cut >= 0) by (nonlinear_arith)
        requires cut == slashed * treasury_bps / 10000, treasury_bps >= 0, slashed >= 0;
    let pool = slashed - cut;
    lemma_payout_bounds(voters, resolved_price, pool, w);
    let r = payout_sum(expected_payouts(voters, resolved_price, pool, w)) - w;
    assert(r <= pool) by (nonlinear_arith)
        requires r * w <= pool * w, w > 0;
    assert(r + winner_count(voters, resolved_price) > pool) by (nonlinear_arith)
        requires r * w + w * winner_count(voters, resolved_price) > pool * w, w > 0;
}

/// The transfers among `p` that move something, in order.
pub open spec fn nonzero_transfers(p: Seq<(Seq<char>, int)>) -> Seq<(Seq<char>, int)>
    decreases p.len(),
{
    if p.len() == 0 {
        Seq::empty()
    } else {
        let rest = nonzero_transfers(p.drop_last());
        if p.last().1 > 0 {
            rest.push(p.last())
        } else {
            rest
        }
    }
}

impl Distribution {
    /// The token transfers that hand this distribution out: the treasury's
    /// cut when stake was slashed, then each winner's payout, leaving out
    /// every transfer of nothing.
    pub fn transfers(&self, treasury: &AccountId) -> (r: Vec<TokenTransfer>)
        ensures
            r@.map_values(|t: TokenTransfer| transfer_view(t)) == (if self.total_slashed > 0 && self.treasury_cut > 0 {
                seq![(treasury@, self.treasury_cut as int)]
            } else {
                Seq::empty()
            }) + nonzero_transfers(self.payouts@.map_values(|t: TokenTransfer| transfer_view(t))),
    {
        let mut out: Vec<TokenTransfer> = Vec::new();
        if self.total_slashed > 0 && self.treasury_cut > 0 {
            out.push(TokenTransfer { recipient: treasury.clone(), amount: self.treasury_cut });
        }
        let ghost head = out@.map_values(|t: TokenTransfer| transfer_view(t));
        let ghost all = self.payouts@.map_values(|t: TokenTransfer| transfer_view(t));
        let mut i: usize = 0;
        while i < self.payouts.len()
            invariant
                i <= self.payouts@.len(),
                all == self.payouts@.map_values(|t: TokenTransfer| transfer_view(t)),
                out@.map_values(|t: TokenTransfer| transfer_view(t)) == head + nonzero_transfers(all.subrange(0, i as int)),
            decreases self.payouts@.len() - i,
        {
            proof {
                assert(all.subrange(0, i + 1).drop_last() =~= all.subrange(0, i as int));
            }
            let t = &self.payouts[i];
            if t.amount > 0 {
                let ghost before = out@;
                out.push(TokenTransfer { recipient: t.recipient.clone(), amount: t.amount });
                proof {
                    assert(out@.map_values(|t: TokenTransfer| transfer_view(t)) =~= before.map_values(
                        |t: TokenTransfer| transfer_view(t),
                    ).push(transfer_view(out@.last())));
                }
            }
            i = i + 1;
        }
        assert(all.subrange(0, self.payouts@.len() as int) =~= all);
        out
    }
}

} // verus!
