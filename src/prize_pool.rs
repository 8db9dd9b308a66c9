use vstd::prelude::*;
use crate::types::Principal;

verus! {

/// Largest number of ranked winners in one pool.
pub const MAX_WINNERS: usize = 10;

/// Largest length of a post id, in bytes.
pub const MAX_POST_ID_LEN: usize = 64;

/// Why a prize-pool operation is refused. A refused operation changes nothing.
#[derive(Debug, Clone, Copy, PartialEq, Eq, Structural)]
pub enum ErrorCode {
    PoolNotEnded,
    PoolEnded,
    InvalidWinnersCount,
    InvalidDistribution,
    DistributionNotHundred,
    WinnersLengthMismatch,
    WinnersNotSet,
    InvalidWinner,
    AlreadyClaimed,
    InvalidRank,
    MathOverflow,
    InsufficientFunds,
    Unauthorized,
    AlreadyDistributed,
    PostIdTooLong,
}

/// A ranked prize pool attached to a post: the owner locks `total_amount`, and
/// after `ends_at` names the winners, who each claim their share once.
pub struct PrizePool {
    pub owner: Principal,
    pub post_id: Vec<u8>,
    pub usdc_mint: u64,
    pub total_amount: u64,
    pub winners_count: u8,
    /// Percentage of the pool for each rank.
    pub distribution: Vec<u8>,
    pub winners: Vec<Principal>,
    pub claimed: Vec<bool>,
    pub total_claimed: u64,
    pub ends_at: i64,
    pub distributed: bool,
    pub bump: u8,
}

/// Sum of the percentages, as a mathematical integer.
pub open spec fn share_sum(d: Seq<u8>) -> int
    decreases d.len(),
{
    if d.len() == 0 {
        0
    } else {
        share_sum(d.drop_last()) + d.last()
    }
}

/// The prize of a rank holding `share` percent of `total`, rounded down.
pub open spec fn prize_for(total: u64, share: u8) -> u64 {
    ((total as int * share as int) / 100) as u64
}

/// `i` is the first position of `x` in `s`.
pub open spec fn is_first_index(s: Seq<Principal>, x: Principal, i: int) -> bool {
    &&& 0 <= i < s.len()
    &&& s[i] == x
    &&& forall|j: int| 0 <= j < i ==> s[j] != x
}

pub open spec fn first_index(s: Seq<Principal>, x: Principal) -> int {
    choose|i: int| is_first_index(s, x, i)
}

pub proof fn lemma_first_index(s: Seq<Principal>, x: Principal, i: int)
    requires
        is_first_index(s, x, i),
    ensures
        first_index(s, x) == i,
{
    let k = first_index(s, x);
    assert(is_first_index(s, x, k));
    if k < i {
        assert(s[k] != x);
    } else if i < k {
        assert(s[i] != x);
    }
}

proof fn lemma_share_sum_step(d: Seq<u8>, i: int)
    requires
        0 <= i < d.len(),
    ensures
        share_sum(d.take(i + 1)) == share_sum(d.take(i)) + d[i],
{
    assert(d.take(i + 1).drop_last() =~= d.take(i));
}

proof fn lemma_share_sum_bound(d: Seq<u8>)
    ensures
        0 <= share_sum(d) <= 255 * d.len(),
    decreases d.len(),
{
    if d.len() > 0 {
        lemma_share_sum_bound(d.drop_last());
    }
}

/// Why `create_pool` refuses its arguments, if it does, checked in this order.
pub open spec fn create_pool_error(
    post_id: Seq<u8>,
    total_amount: u64,
    distribution: Seq<u8>,
    ends_at: i64,
    current_time: i64,
) -> Option<ErrorCode> {
    if post_id.len() > MAX_POST_ID_LEN {
        Some(ErrorCode::PostIdTooLong)
    } else if distribution.len() == 0 || distribution.len() > MAX_WINNERS {
        Some(ErrorCode::InvalidWinnersCount)
    } else if share_sum(distribution) != 100 {
        Some(ErrorCode::DistributionNotHundred)
    } else if exists|i: int| 0 <= i < distribution.len() && #[trigger] distribution[i] == 0 {
        Some(ErrorCode::InvalidDistribution)
    } else if total_amount == 0 {
        Some(ErrorCode::InsufficientFunds)
    } else if ends_at <= current_time {
        Some(ErrorCode::PoolEnded)
    } else {
        None
    }
}

impl PrizePool {
    /// Its vectors agree: one claimed flag per winner, one share per rank.
    pub open spec fn wf(&self) -> bool {
        &&& self.claimed@.len() == self.winners@.len()
        &&& self.distribution@.len() == self.winners_count as int
    }

    /// `b` keeps every setting of `a` that is fixed at creation.
    pub open spec fn same_settings(a: &PrizePool, b: &PrizePool) -> bool {
        &&& b.owner == a.owner
        &&& b.post_id == a.post_id
        &&& b.usdc_mint == a.usdc_mint
        &&& b.total_amount == a.total_amount
        &&& b.winners_count == a.winners_count
        &&& b.distribution == a.distribution
        &&& b.ends_at == a.ends_at
        &&& b.bump == a.bump
    }

    pub fn has_ended(&self, current_time: i64) -> (r: bool)
        ensures
            r == (current_time >= self.ends_at),
    {
        current_time >= self.ends_at
    }

    pub fn all_winners_set(&self) -> (r: bool)
        ensures
            r == (self.winners@.len() == self.winners_count as int),
    {
        self.winners.len() == self.winners_count as usize
    }

    pub fn has_claimed(&self, winner_index: usize) -> (r: bool)
        ensures
            r == (winner_index < self.claimed@.len() && self.claimed@[winner_index as int]),
    {
        if winner_index >= self.claimed.len() {
            return false;
        }
        self.claimed[winner_index]
    }

    /// The prize of a rank: its share of the total, computed without overflow
    /// and rounded down.
    pub fn calculate_prize(&self, rank: usize) -> (r: Result<u64, ErrorCode>)
        ensures
            match r {
                Ok(a) => rank < self.distribution@.len() && a == prize_for(
                    self.total_amount,
                    self.distribution@[rank as int],
                ),
                Err(e) => rank >= self.distribution@.len() && e == ErrorCode::InvalidRank,
            },
    {
        if rank >= self.distribution.len() {
            return Err(ErrorCode::InvalidRank);
        }
        let percentage = self.distribution[rank] as u128;
        let total = self.total_amount as u128;
        assert(total * percentage <= 0xffff_ffff_ffff_ffffu128 * 255) by (nonlinear_arith)
            requires
                total <= 0xffff_ffff_ffff_ffffu128,
                percentage <= 255,
        ;
        let wide = total * percentage;
        Ok(#[verifier::truncate] ((wide / 100) as u64))
    }

    pub fn all_claimed(&self) -> (r: bool)
        ensures
            r == (forall|i: int| 0 <= i < self.claimed@.len() ==> #[trigger] self.claimed@[i]),
    {
        let mut i: usize = 0;
        while i < self.claimed.len()
            invariant
                i <= self.claimed@.len(),
                forall|j: int| 0 <= j < i ==> #[trigger] self.claimed@[j],
            decreases self.claimed@.len() - i,
        {
            if !self.claimed[i] {
                return false;
            }
            i = i + 1;
        }
        true
    }
}

/// Opens a pool. The caller then moves `total_amount` from the owner into the
/// pool's escrow account.
#[verifier::loop_isolation(false)]
pub fn create_pool(
    owner: Principal,
    post_id: Vec<u8>,
    usdc_mint: u64,
    total_amount: u64,
    distribution: Vec<u8>,
    ends_at: i64,
    current_time: i64,
    bump: u8,
) -> (r: Result<PrizePool, ErrorCode>)
    ensures
        match r {
            Ok(p) => {
                &&& create_pool_error(post_id@, total_amount, distribution@, ends_at, current_time)
                    is None
                &&& p.wf()
                &&& p.owner == owner
                &&& p.post_id == post_id
                &&& p.usdc_mint == usdc_mint
                &&& p.total_amount == total_amount
                &&& p.winners_count as int == distribution@.len()
                &&& p.distribution == distribution
                &&& p.winners@.len() == 0
                &&& p.claimed@.len() == 0
                &&& p.total_claimed == 0
                &&& p.ends_at == ends_at
                &&& !p.distributed
                &&& p.bump == bump
            },
            Err(e) => create_pool_error(post_id@, total_amount, distribution@, ends_at, current_time)
                == Some(e),
        },
{
    if post_id.len() > MAX_POST_ID_LEN {
        return Err(ErrorCode::PostIdTooLong);
    }
    let winners_count = distribution.len();
    if winners_count == 0 || winners_count > MAX_WINNERS {
        return Err(ErrorCode::InvalidWinnersCount);
    }
    let mut sum: u64 = 0;
    let mut i: usize = 0;
    while i < distribution.len()
        invariant
            i <= distribution@.len() <= MAX_WINNERS,
            sum == share_sum(distribution@.take(i as int)),
            sum <= 255 * i,
        decreases distribution@.len() - i,
    {
        proof {
            lemma_share_sum_step(distribution@, i as int);
        }
        sum = sum + distribution[i] as u64;
        i = i + 1;
    }
    assert(distribution@.take(distribution@.len() as int) =~= distribution@);
    if sum != 100 {
        return Err(ErrorCode::DistributionNotHundred);
    }
    i = 0;
    while i < distribution.len()
        invariant
            i <= distribution@.len(),
            forall|j: int| 0 <= j < i ==> #[trigger] distribution@[j] != 0,
        decreases distribution@.len() - i,
    {
        if distribution[i] == 0 {
            return Err(ErrorCode::InvalidDistribution);
        }
        i = i + 1;
    }
    if total_amount == 0 {
        return Err(ErrorCode::InsufficientFunds);
    }
    if ends_at <= current_time {
        return Err(ErrorCode::PoolEnded);
    }
    Ok(
        PrizePool {
            owner,
            post_id,
            usdc_mint,
            total_amount,
            winners_count: winners_count as u8,
            distribution,
            winners: Vec::new(),
            claimed: Vec::new(),
            total_claimed: 0,
            ends_at,
            distributed: false,
            bump,
        },
    )
}

/// Why `set_winners` refuses, if it does, checked in this order.
pub open spec fn set_winners_error(
    pool: &PrizePool,
    signer: Principal,
    winners: Seq<Principal>,
    current_time: i64,
) -> Option<ErrorCode> {
    if signer != pool.owner {
        Some(ErrorCode::Unauthorized)
    } else if current_time < pool.ends_at {
        Some(ErrorCode::PoolNotEnded)
    } else if winners.len() != pool.winners_count as int {
        Some(ErrorCode::WinnersLengthMismatch)
    } else if exists|i: int| 0 <= i < winners.len() && #[trigger] winners[i] == 0 {
        Some(ErrorCode::InvalidWinner)
    } else {
        None
    }
}

/// The owner names the winners in rank order once the pool has ended; the
/// default key (zero) is no winner.
#[verifier::loop_isolation(false)]
pub fn set_winners(
    pool: &mut PrizePool,
    signer: Principal,
    winners: Vec<Principal>,
    current_time: i64,
) -> (r: Result<(), ErrorCode>)
    requires
        old(pool).wf(),
    ensures
        match r {
            Ok(()) => {
                &&& set_winners_error(old(pool), signer, winners@, current_time) is None
                &&& PrizePool::same_settings(old(pool), final(pool))
                &&& final(pool).winners == winners
                &&& final(pool).claimed@ == Seq::new(winners@.len(), |i: int| false)
                &&& final(pool).distributed
                &&& final(pool).total_claimed == old(pool).total_claimed
                &&& final(pool).wf()
            },
            Err(e) => set_winners_error(old(pool), signer, winners@, current_time) == Some(e)
                && *final(pool) == *old(pool),
        },
{
    if signer != pool.owner {
        return Err(ErrorCode::Unauthorized);
    }
    if !pool.has_ended(current_time) {
        return Err(ErrorCode::PoolNotEnded);
    }
    if winners.len() != pool.winners_count as usize {
        return Err(ErrorCode::WinnersLengthMismatch);
    }
    let mut i: usize = 0;
    while i < winners.len()
        invariant
            i <= winners@.len(),
            forall|j: int| 0 <= j < i ==> #[trigger] winners@[j] != 0,
        decreases winners@.len() - i,
    {
        if winners[i] == 0 {
            return Err(ErrorCode::InvalidWinner);
        }
        i = i + 1;
    }
    let mut claimed: Vec<bool> = Vec::new();
    i = 0;
    while i < winners.len()
        invariant
            i <= winners@.len(),
            claimed@ == Seq::new(i as nat, |j: int| false),
        decreases winners@.len() - i,
    {
        claimed.push(false);
        i = i + 1;
        assert(claimed@ =~= Seq::new(i as nat, |j: int| false));
    }
    pool.winners = winners;
    pool.claimed = claimed;
    pool.distributed = true;
    Ok(())
}

/// Why `claim_prize` refuses, if it does, checked in this order.
pub open spec fn claim_prize_error(pool: &PrizePool, winner: Principal) -> Option<ErrorCode> {
    let i = first_index(pool.winners@, winner);
    if !pool.distributed {
        Some(ErrorCode::WinnersNotSet)
    } else if !pool.winners@.contains(winner) {
        Some(ErrorCode::InvalidWinner)
    } else if i < pool.claimed@.len() && pool.claimed@[i] {
        Some(ErrorCode::AlreadyClaimed)
    } else if i >= pool.distribution@.len() {
        Some(ErrorCode::InvalidRank)
    } else if pool.total_claimed + prize_for(pool.total_amount, pool.distribution@[i]) > u64::MAX {
        Some(ErrorCode::MathOverflow)
    } else {
        None
    }
}

/// A winner claims the prize of their first rank. Returns the amount the caller
/// then moves from the pool's escrow account to the winner.
#[verifier::loop_isolation(false)]
pub fn claim_prize(pool: &mut PrizePool, winner: Principal) -> (r: Result<u64, ErrorCode>)
    requires
        old(pool).wf(),
    ensures
        match r {
            Ok(a) => {
                let i = first_index(old(pool).winners@, winner);
                &&& claim_prize_error(old(pool), winner) is None
                &&& is_first_index(old(pool).winners@, winner, i)
                &&& a == prize_for(old(pool).total_amount, old(pool).distribution@[i])
                &&& final(pool).claimed@ == old(pool).claimed@.update(i, true)
                &&& final(pool).total_claimed == old(pool).total_claimed + a
                &&& PrizePool::same_settings(old(pool), final(pool))
                &&& final(pool).winners == old(pool).winners
                &&& final(pool).distributed == old(pool).distributed
                &&& final(pool).wf()
            },
            Err(e) => claim_prize_error(old(pool), winner) == Some(e) && *final(pool) == *old(pool),
        },
{
    if !pool.distributed {
        return Err(ErrorCode::WinnersNotSet);
    }
    let mut i: usize = 0;
    while i < pool.winners.len()
        invariant
            i <= pool.winners@.len(),
            forall|j: int| 0 <= j < i ==> pool.winners@[j] != winner,
        decreases pool.winners@.len() - i,
    {
        if pool.winners[i] == winner {
            break;
        }
        i = i + 1;
    }
    if i == pool.winners.len() {
        assert(!pool.winners@.contains(winner)) by {
            if pool.winners@.contains(winner) {
                let k = choose|k: int| 0 <= k < pool.winners@.len() && pool.winners@[k] == winner;
                assert(pool.winners@[k] != winner);
            }
        }
        return Err(ErrorCode::InvalidWinner);
    }
    proof {
        assert(is_first_index(pool.winners@, winner, i as int));
        lemma_first_index(pool.winners@, winner, i as int);
        assert(pool.winners@.contains(winner));
    }
    if pool.has_claimed(i) {
        return Err(ErrorCode::AlreadyClaimed);
    }
    let prize = match pool.calculate_prize(i) {
        Ok(a) => a,
        Err(e) => {
            return Err(e);
        },
    };
    let total = match pool.total_claimed.checked_add(prize) {
        Some(t) => t,
        None => {
            return Err(ErrorCode::MathOverflow);
        },
    };
    pool.claimed.set(i, true);
    pool.total_claimed = total;
    Ok(prize)
}

/// The owner takes back what is left, which is allowed before winners are set
/// or once every prize is claimed. `remaining_balance` is what the escrow
/// account holds; the result is the amount to move back to the owner.
pub fn emergency_withdraw(pool: &PrizePool, signer: Principal, remaining_balance: u64) -> (r:
    Result<u64, ErrorCode>)
    ensures
        match r {
            Ok(a) => signer == pool.owner && (!pool.distributed || forall|i: int|
                0 <= i < pool.claimed@.len() ==> #[trigger] pool.claimed@[i]) && a
                == remaining_balance,
            Err(e) => if signer != pool.owner {
                e == ErrorCode::Unauthorized
            } else {
                e == ErrorCode::AlreadyDistributed && pool.distributed && exists|i: int|
                    0 <= i < pool.claimed@.len() && !#[trigger] pool.claimed@[i]
            },
        },
{
    if signer != pool.owner {
        return Err(ErrorCode::Unauthorized);
    }
    if !(!pool.distributed || pool.all_claimed()) {
        return Err(ErrorCode::AlreadyDistributed);
    }
    Ok(remaining_balance)
}

} // verus!
