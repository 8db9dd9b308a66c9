use vstd::prelude::*;
use vstd::set::fold::is_fun_commutative;
use crate::types::{
    approved_sum, milestone_sum, plan_sum, Config, EscrowState, EscrowStatus, Idea, IdeaStatus,
    MarketError, Milestone, MilestonePlan, MilestoneStatus, Principal, Proposal, ProposalStatus,
    ReputationProfile, StakePosition, StakeStatus, VoteRecord, MAX_COMMITTEE, MAX_MILESTONES,
    MAX_URI_LEN,
};

verus! {

/// The whole ledger seen as maps from record identities to records.
pub struct MarketView {
    pub config: Option<Config>,
    pub ideas: Map<u64, Idea>,
    pub stakes: Map<u128, StakePosition>,
    pub proposals: Map<u64, Proposal>,
    pub votes: Map<u128, VoteRecord>,
    pub escrows: Map<u64, EscrowState>,
    pub reputations: Map<u64, ReputationProfile>,
    pub tokens: Map<u128, u64>,
    pub currency: Map<u64, u64>,
}

/// Identity built from a namespace or parent id and a sub-key.
pub open spec fn pair_key(a: u64, b: u64) -> u128 {
    (a * 0x1_0000_0000_0000_0000int + b) as u128
}

/// The funding-asset account of a principal.
pub open spec fn wallet_account(p: Principal) -> u128 {
    pair_key(0, p)
}

/// The pool vault of an idea.
pub open spec fn pool_account(idea_id: u64) -> u128 {
    pair_key(1, idea_id)
}

/// The escrow vault of an idea's winning proposal.
pub open spec fn escrow_account(idea_id: u64) -> u128 {
    pair_key(2, idea_id)
}

/// Balance of an account; an account never written holds nothing.
pub open spec fn balance(tokens: Map<u128, u64>, k: u128) -> int {
    if tokens.contains_key(k) {
        tokens[k] as int
    } else {
        0
    }
}

/// Direct-currency balance of a principal.
pub open spec fn currency_of(currency: Map<u64, u64>, p: Principal) -> int {
    if currency.contains_key(p) {
        currency[p] as int
    } else {
        0
    }
}

/// Moves `amount` from one account to another.
pub open spec fn move_tokens(tokens: Map<u128, u64>, from: u128, to: u128, amount: u64) -> Map<
    u128,
    u64,
> {
    let t = tokens.insert(from, (balance(tokens, from) - amount) as u64);
    t.insert(to, (balance(t, to) + amount) as u64)
}

/// Why a move of `amount` from `from` to `to` cannot happen, if it cannot.
pub open spec fn move_error(tokens: Map<u128, u64>, from: u128, to: u128, amount: u64) -> Option<
    MarketError,
> {
    if balance(tokens, from) < amount {
        Some(MarketError::InsufficientFunds)
    } else if from != to && balance(tokens, to) + amount > u64::MAX {
        Some(MarketError::MathOverflow)
    } else {
        None
    }
}

/// Moves `amount` of direct currency from one principal to another.
pub open spec fn move_currency(currency: Map<u64, u64>, from: u64, to: u64, amount: u64) -> Map<
    u64,
    u64,
> {
    let t = currency.insert(from, (currency_of(currency, from) - amount) as u64);
    t.insert(to, (currency_of(t, to) + amount) as u64)
}

/// Why a move of direct currency cannot happen, if it cannot.
pub open spec fn currency_error(currency: Map<u64, u64>, from: u64, to: u64, amount: u64) -> Option<
    MarketError,
> {
    if currency_of(currency, from) < amount {
        Some(MarketError::InsufficientFunds)
    } else if from != to && currency_of(currency, to) + amount > u64::MAX {
        Some(MarketError::MathOverflow)
    } else {
        None
    }
}

/// Addition that stops at the largest value instead of failing.
pub open spec fn sat_add(a: u64, b: u64) -> u64 {
    if a + b > u64::MAX {
        u64::MAX
    } else {
        (a + b) as u64
    }
}

/// The reputation profile of a wallet, all zero before its first event.
pub open spec fn reputation_of(reps: Map<u64, ReputationProfile>, w: Principal) -> ReputationProfile {
    if reps.contains_key(w) {
        reps[w]
    } else {
        ReputationProfile {
            wallet: w,
            proposals_won: 0,
            milestones_completed: 0,
            support_count: 0,
            support_amount_total: 0,
        }
    }
}

/// The keys of the stake positions held in one idea.
pub open spec fn stake_keys(stakes: Map<u128, StakePosition>, idea_id: u64) -> Set<u128> {
    stakes.dom().filter(|k: u128| stakes[k].idea_id == idea_id)
}

pub open spec fn amount_adder(stakes: Map<u128, StakePosition>) -> spec_fn(int, u128) -> int {
    |acc: int, k: u128| acc + stakes[k].amount
}

/// Sum of the amounts of the stake positions held in one idea.
pub open spec fn stake_total(stakes: Map<u128, StakePosition>, idea_id: u64) -> int {
    stake_keys(stakes, idea_id).fold(0int, amount_adder(stakes))
}

/// `b` is a later state of the profile `a`: same wallet, no counter lower.
pub open spec fn reputation_grows(a: ReputationProfile, b: ReputationProfile) -> bool {
    &&& b.wallet == a.wallet
    &&& a.proposals_won <= b.proposals_won
    &&& a.milestones_completed <= b.milestones_completed
    &&& a.support_count <= b.support_count
    &&& a.support_amount_total <= b.support_amount_total
}

/// The stake of one supporter in one idea, zero before the first stake.
pub open spec fn staked_amount(stakes: Map<u128, StakePosition>, idea_id: u64, p: Principal) -> int {
    if stakes.contains_key(pair_key(idea_id, p)) {
        stakes[pair_key(idea_id, p)].amount as int
    } else {
        0
    }
}

/// Every milestone of the schedule is approved.
pub open spec fn all_approved(ms: Seq<Milestone>) -> bool {
    forall|i: int| 0 <= i < ms.len() ==> #[trigger] ms[i].status == MilestoneStatus::Approved
}

/// No milestone of the schedule is approved.
pub open spec fn none_approved(ms: Seq<Milestone>) -> bool {
    forall|i: int| 0 <= i < ms.len() ==> #[trigger] ms[i].status != MilestoneStatus::Approved
}

impl MarketView {
    /// A principal that the configuration lets advance gated operations.
    pub open spec fn authorizes(self, p: Principal) -> bool {
        self.config is Some && self.config->0.authorizes(p)
    }

    /// The ledger's invariant: each idea's total staked is the sum of its stake
    /// positions, each position sits under the identity of its idea and
    /// supporter; while an idea takes stakes or refunds its pool holds exactly
    /// what was staked; each proposal's schedule adds up to its requested
    /// total; each escrow has released exactly its approved milestones, and its
    /// vault holds the rest of the requested total.
    pub open spec fn wf(self) -> bool {
        &&& forall|id: u64| #[trigger]
            self.ideas.contains_key(id) ==> {
                let idea = self.ideas[id];
                &&& idea.id == id
                &&& idea.pool_vault == pool_account(id)
                &&& (idea.status == IdeaStatus::Open || idea.status == IdeaStatus::Voting)
                    ==> balance(self.tokens, pool_account(id)) == idea.total_staked
                &&& idea.total_staked == stake_total(self.stakes, id)
            }
        &&& self.stakes.dom().finite()
        &&& forall|k: u128| #[trigger]
            self.stakes.contains_key(k) ==> {
                &&& k == pair_key(self.stakes[k].idea_id, self.stakes[k].supporter)
                &&& self.ideas.contains_key(self.stakes[k].idea_id)
            }
        &&& forall|pid: u64| #[trigger]
            self.proposals.contains_key(pid) ==> {
                let p = self.proposals[pid];
                &&& 1 <= p.milestones@.len() <= MAX_MILESTONES
                &&& milestone_sum(p.milestones@) == p.requested_total
                &&& forall|i: int|
                    0 <= i < p.milestones@.len() ==> #[trigger] p.milestones@[i].amount > 0
                &&& p.status == ProposalStatus::Submitted ==> none_approved(p.milestones@)
            }
        &&& forall|k: u64| #[trigger]
            self.escrows.contains_key(k) ==> {
                let e = self.escrows[k];
                &&& e.idea_id == k
                &&& e.vault == escrow_account(k)
                &&& balance(self.tokens, escrow_account(k)) + e.released_amount
                    == self.proposals[e.proposal_id].requested_total
                &&& self.proposals.contains_key(e.proposal_id)
                &&& self.proposals[e.proposal_id].idea_id == k
                &&& e.released_amount == approved_sum(self.proposals[e.proposal_id].milestones@)
                &&& e.status == EscrowStatus::Finished ==> all_approved(
                    self.proposals[e.proposal_id].milestones@,
                )
            }
    }

    /// Each idea's status stays or takes one step forward, and no idea disappears.
    pub open spec fn ideas_advance(self, t: MarketView) -> bool {
        forall|id: u64| #[trigger]
            self.ideas.contains_key(id) ==> t.ideas.contains_key(id) && crate::types::idea_step(
                self.ideas[id].status,
                t.ideas[id].status,
            )
    }

    /// Each milestone's status stays or takes one step forward, and no proposal or
    /// milestone disappears.
    pub open spec fn milestones_advance(self, t: MarketView) -> bool {
        forall|pid: u64| #[trigger]
            self.proposals.contains_key(pid) ==> {
                &&& t.proposals.contains_key(pid)
                &&& t.proposals[pid].milestones@.len() == self.proposals[pid].milestones@.len()
                &&& forall|i: int|
                    0 <= i < self.proposals[pid].milestones@.len() ==> crate::types::milestone_step(
                        #[trigger] self.proposals[pid].milestones@[i].status,
                        t.proposals[pid].milestones@[i].status,
                    )
            }
    }

    /// No proposal's requested total or milestone amounts ever change.
    pub open spec fn schedules_fixed(self, t: MarketView) -> bool {
        forall|pid: u64| #[trigger]
            self.proposals.contains_key(pid) ==> {
                &&& t.proposals.contains_key(pid)
                &&& t.proposals[pid].requested_total == self.proposals[pid].requested_total
                &&& t.proposals[pid].milestones@.len() == self.proposals[pid].milestones@.len()
                &&& forall|i: int|
                    0 <= i < self.proposals[pid].milestones@.len() ==> #[trigger] t.proposals[pid].milestones@[i].amount
                        == self.proposals[pid].milestones@[i].amount
            }
    }

    /// Stake positions, vote records, escrows and reputation profiles are never
    /// removed; a vote record never changes; reputation counters never decrease;
    /// each proposal's status stays or takes one step forward.
    pub open spec fn records_kept(self, t: MarketView) -> bool {
        &&& forall|k: u128| #[trigger] self.stakes.contains_key(k) ==> t.stakes.contains_key(k)
        &&& forall|k: u128| #[trigger]
            self.votes.contains_key(k) ==> t.votes.contains_key(k) && t.votes[k] == self.votes[k]
        &&& forall|k: u64| #[trigger] self.escrows.contains_key(k) ==> t.escrows.contains_key(k)
        &&& forall|w: u64| #[trigger]
            self.reputations.contains_key(w) ==> t.reputations.contains_key(w) && reputation_grows(
                self.reputations[w],
                t.reputations[w],
            )
        &&& forall|pid: u64| #[trigger]
            self.proposals.contains_key(pid) ==> crate::types::proposal_step(
                self.proposals[pid].status,
                t.proposals[pid].status,
            )
    }

    /// What every operation keeps: the invariant, the schedules, the records, and
    /// the forward movement of statuses.
    pub open spec fn evolves_to(self, t: MarketView) -> bool {
        &&& t.wf()
        &&& self.ideas_advance(t)
        &&& self.milestones_advance(t)
        &&& self.schedules_fixed(t)
        &&& self.records_kept(t)
    }

    // ---- initialize_config ----
    pub open spec fn initialize_config_error(self) -> Option<MarketError> {
        if self.config is Some {
            Some(MarketError::AlreadyInitialized)
        } else {
            None
        }
    }

    pub open spec fn initialize_config_done(
        self,
        t: MarketView,
        caller: Principal,
        accepted_asset: u64,
        fee: u64,
        vote_duration: i64,
    ) -> bool {
        &&& t == MarketView { config: t.config, ..self }
        &&& t.config is Some
        &&& t.config->0.admin == caller
        &&& t.config->0.accepted_asset == accepted_asset
        &&& t.config->0.proposal_fee == fee
        &&& t.config->0.vote_duration == vote_duration
        &&& t.config->0.committee@ == seq![caller]
    }

    // ---- set_committee ----
    pub open spec fn set_committee_error(self, caller: Principal, committee: Seq<Principal>) -> Option<
        MarketError,
    > {
        if self.config is None {
            Some(MarketError::NotInitialized)
        } else if caller != self.config->0.admin {
            Some(MarketError::Unauthorized)
        } else if committee.len() < 1 || committee.len() > MAX_COMMITTEE {
            Some(MarketError::InvalidCommittee)
        } else {
            None
        }
    }

    pub open spec fn set_committee_result(self, committee: Vec<Principal>) -> MarketView {
        MarketView { config: Some(Config { committee, ..self.config->0 }), ..self }
    }

    // ---- deposit ----
    pub open spec fn deposit_error(self, owner: Principal, amount: u64) -> Option<MarketError> {
        if balance(self.tokens, wallet_account(owner)) + amount > u64::MAX {
            Some(MarketError::MathOverflow)
        } else {
            None
        }
    }

    pub open spec fn deposit_result(self, owner: Principal, amount: u64) -> MarketView {
        MarketView {
            tokens: self.tokens.insert(
                wallet_account(owner),
                (balance(self.tokens, wallet_account(owner)) + amount) as u64,
            ),
            ..self
        }
    }

    pub open spec fn deposit_currency_error(self, owner: Principal, amount: u64) -> Option<
        MarketError,
    > {
        if currency_of(self.currency, owner) + amount > u64::MAX {
            Some(MarketError::MathOverflow)
        } else {
            None
        }
    }

    pub open spec fn deposit_currency_result(self, owner: Principal, amount: u64) -> MarketView {
        MarketView {
            currency: self.currency.insert(
                owner,
                (currency_of(self.currency, owner) + amount) as u64,
            ),
            ..self
        }
    }

    // ---- create_idea ----
    pub open spec fn create_idea_error(self, idea_id: u64, metadata: Seq<u8>) -> Option<MarketError> {
        if self.config is None {
            Some(MarketError::NotInitialized)
        } else if metadata.len() > MAX_URI_LEN {
            Some(MarketError::UriTooLong)
        } else if self.ideas.contains_key(idea_id) {
            Some(MarketError::IdeaExists)
        } else {
            None
        }
    }

    pub open spec fn create_idea_result(self, caller: Principal, idea_id: u64, metadata: Vec<u8>) -> MarketView {
        MarketView {
            ideas: self.ideas.insert(
                idea_id,
                Idea {
                    id: idea_id,
                    creator: caller,
                    metadata,
                    accepted_asset: self.config->0.accepted_asset,
                    status: IdeaStatus::Open,
                    total_staked: 0,
                    vote_end_ts: 0,
                    winning_proposal: None,
                    pool_vault: pool_account(idea_id),
                },
            ),
            tokens: self.tokens.insert(pool_account(idea_id), 0),
            ..self
        }
    }

    // ---- start_voting ----
    pub open spec fn start_voting_error(self, caller: Principal, idea_id: u64, now: i64) -> Option<
        MarketError,
    > {
        if self.config is None {
            Some(MarketError::NotInitialized)
        } else if !self.authorizes(caller) {
            Some(MarketError::Unauthorized)
        } else if !self.ideas.contains_key(idea_id) {
            Some(MarketError::IdeaNotFound)
        } else if self.ideas[idea_id].status != IdeaStatus::Open {
            Some(MarketError::InvalidIdeaStatus)
        } else if now + self.config->0.vote_duration > i64::MAX || now
            + self.config->0.vote_duration < i64::MIN {
            Some(MarketError::MathOverflow)
        } else {
            None
        }
    }

    pub open spec fn start_voting_result(self, idea_id: u64, now: i64) -> MarketView {
        MarketView {
            ideas: self.ideas.insert(
                idea_id,
                Idea {
                    status: IdeaStatus::Voting,
                    vote_end_ts: (now + self.config->0.vote_duration) as i64,
                    ..self.ideas[idea_id]
                },
            ),
            ..self
        }
    }

    // ---- stake ----
    pub open spec fn stake_error(self, caller: Principal, idea_id: u64, amount: u64) -> Option<
        MarketError,
    > {
        if !self.ideas.contains_key(idea_id) {
            Some(MarketError::IdeaNotFound)
        } else if self.ideas[idea_id].status != IdeaStatus::Open {
            Some(MarketError::InvalidIdeaStatus)
        } else if amount == 0 {
            Some(MarketError::InvalidAmount)
        } else if move_error(self.tokens, wallet_account(caller), pool_account(idea_id), amount)
            is Some {
            move_error(self.tokens, wallet_account(caller), pool_account(idea_id), amount)
        } else if self.ideas[idea_id].total_staked + amount > u64::MAX || staked_amount(
            self.stakes,
            idea_id,
            caller,
        ) + amount > u64::MAX {
            Some(MarketError::MathOverflow)
        } else {
            None
        }
    }

    pub open spec fn stake_result(self, caller: Principal, idea_id: u64, amount: u64) -> MarketView {
        let idea = self.ideas[idea_id];
        let rep = reputation_of(self.reputations, caller);
        MarketView {
            ideas: self.ideas.insert(
                idea_id,
                Idea { total_staked: (idea.total_staked + amount) as u64, ..idea },
            ),
            stakes: self.stakes.insert(
                pair_key(idea_id, caller),
                StakePosition {
                    idea_id,
                    supporter: caller,
                    amount: (staked_amount(self.stakes, idea_id, caller) + amount) as u64,
                    status: StakeStatus::Active,
                },
            ),
            tokens: move_tokens(self.tokens, wallet_account(caller), pool_account(idea_id), amount),
            reputations: self.reputations.insert(
                caller,
                ReputationProfile {
                    support_count: sat_add(rep.support_count, 1),
                    support_amount_total: sat_add(rep.support_amount_total, amount),
                    ..rep
                },
            ),
            ..self
        }
    }

    // ---- refund_stake ----
    pub open spec fn refund_stake_error(
        self,
        caller: Principal,
        idea_id: u64,
        supporter: Principal,
        amount: u64,
    ) -> Option<MarketError> {
        if !self.ideas.contains_key(idea_id) {
            Some(MarketError::IdeaNotFound)
        } else if self.ideas[idea_id].status != IdeaStatus::Open && self.ideas[idea_id].status
            != IdeaStatus::Voting {
            Some(MarketError::InvalidIdeaStatus)
        } else if !self.stakes.contains_key(pair_key(idea_id, supporter)) {
            Some(MarketError::StakeNotFound)
        } else if caller != supporter {
            Some(MarketError::Unauthorized)
        } else if self.stakes[pair_key(idea_id, supporter)].amount < amount {
            Some(MarketError::InsufficientStake)
        } else if self.ideas[idea_id].total_staked < amount {
            Some(MarketError::MathOverflow)
        } else {
            move_error(self.tokens, pool_account(idea_id), wallet_account(supporter), amount)
        }
    }

    pub open spec fn refund_stake_result(self, idea_id: u64, supporter: Principal, amount: u64) -> MarketView {
        let idea = self.ideas[idea_id];
        let pos = self.stakes[pair_key(idea_id, supporter)];
        let left = (pos.amount - amount) as u64;
        MarketView {
            ideas: self.ideas.insert(
                idea_id,
                Idea { total_staked: (idea.total_staked - amount) as u64, ..idea },
            ),
            stakes: self.stakes.insert(
                pair_key(idea_id, supporter),
                StakePosition {
                    amount: left,
                    status: if left == 0 {
                        StakeStatus::Refunded
                    } else {
                        pos.status
                    },
                    ..pos
                },
            ),
            tokens: move_tokens(self.tokens, pool_account(idea_id), wallet_account(supporter), amount),
            ..self
        }
    }

    // ---- submit_proposal ----
    pub open spec fn submit_proposal_error(
        self,
        caller: Principal,
        idea_id: u64,
        proposal_id: u64,
        requested_total: u64,
        metadata: Seq<u8>,
        plans: Seq<MilestonePlan>,
    ) -> Option<MarketError> {
        if self.config is None {
            Some(MarketError::NotInitialized)
        } else if !self.ideas.contains_key(idea_id) {
            Some(MarketError::IdeaNotFound)
        } else if self.ideas[idea_id].status != IdeaStatus::Open {
            Some(MarketError::InvalidIdeaStatus)
        } else if self.proposals.contains_key(proposal_id) {
            Some(MarketError::ProposalExists)
        } else if metadata.len() > MAX_URI_LEN {
            Some(MarketError::UriTooLong)
        } else if plans.len() < 1 || plans.len() > MAX_MILESTONES {
            Some(MarketError::InvalidMilestones)
        } else if exists|i: int| 0 <= i < plans.len() && #[trigger] plans[i].amount == 0 {
            Some(MarketError::InvalidMilestones)
        } else if plan_sum(plans) > u64::MAX {
            Some(MarketError::MathOverflow)
        } else if plan_sum(plans) != requested_total {
            Some(MarketError::MilestoneSumMismatch)
        } else if self.config->0.proposal_fee > 0 {
            currency_error(self.currency, caller, self.config->0.admin, self.config->0.proposal_fee)
        } else {
            None
        }
    }

    /// `p` is the fresh proposal built from a submission.
    pub open spec fn is_new_proposal(
        p: Proposal,
        caller: Principal,
        idea_id: u64,
        proposal_id: u64,
        requested_total: u64,
        metadata: Vec<u8>,
        plans: Seq<MilestonePlan>,
    ) -> bool {
        &&& p.id == proposal_id
        &&& p.idea_id == idea_id
        &&& p.builder == caller
        &&& p.metadata == metadata
        &&& p.requested_total == requested_total
        &&& p.status == ProposalStatus::Submitted
        &&& p.vote_count == 0
        &&& p.milestones@.len() == plans.len()
        &&& forall|i: int|
            #![trigger p.milestones@[i]]
            0 <= i < plans.len() ==> {
                &&& p.milestones@[i].amount == plans[i].amount
                &&& p.milestones@[i].deadline == plans[i].deadline
                &&& p.milestones@[i].proof@.len() == 0
                &&& p.milestones@[i].status == MilestoneStatus::Pending
            }
    }

    pub open spec fn submit_proposal_done(
        self,
        t: MarketView,
        caller: Principal,
        idea_id: u64,
        proposal_id: u64,
        requested_total: u64,
        metadata: Vec<u8>,
        plans: Seq<MilestonePlan>,
    ) -> bool {
        let fee = self.config->0.proposal_fee;
        &&& t == MarketView {
            proposals: self.proposals.insert(proposal_id, t.proposals[proposal_id]),
            currency: if fee > 0 {
                move_currency(self.currency, caller, self.config->0.admin, fee)
            } else {
                self.currency
            },
            ..self
        }
        &&& Self::is_new_proposal(
            t.proposals[proposal_id],
            caller,
            idea_id,
            proposal_id,
            requested_total,
            metadata,
            plans,
        )
    }

    // ---- cast_vote ----
    pub open spec fn cast_vote_error(self, caller: Principal, idea_id: u64, proposal_id: u64, now: i64) -> Option<
        MarketError,
    > {
        if !self.ideas.contains_key(idea_id) {
            Some(MarketError::IdeaNotFound)
        } else if self.ideas[idea_id].status != IdeaStatus::Voting {
            Some(MarketError::InvalidIdeaStatus)
        } else if now > self.ideas[idea_id].vote_end_ts {
            Some(MarketError::VoteEnded)
        } else if !self.proposals.contains_key(proposal_id) {
            Some(MarketError::ProposalNotFound)
        } else if self.proposals[proposal_id].idea_id != idea_id {
            Some(MarketError::ProposalIdeaMismatch)
        } else if self.votes.contains_key(pair_key(idea_id, caller)) {
            Some(MarketError::AlreadyVoted)
        } else if self.proposals[proposal_id].vote_count == u64::MAX {
            Some(MarketError::MathOverflow)
        } else {
            None
        }
    }

    pub open spec fn cast_vote_result(self, caller: Principal, idea_id: u64, proposal_id: u64) -> MarketView {
        let p = self.proposals[proposal_id];
        MarketView {
            proposals: self.proposals.insert(
                proposal_id,
                Proposal { vote_count: (p.vote_count + 1) as u64, ..p },
            ),
            votes: self.votes.insert(
                pair_key(idea_id, caller),
                VoteRecord { idea_id, voter: caller, proposal_id },
            ),
            ..self
        }
    }

    // ---- finalize_winner ----
    pub open spec fn finalize_winner_error(
        self,
        caller: Principal,
        idea_id: u64,
        proposal_id: u64,
        now: i64,
    ) -> Option<MarketError> {
        if self.config is None {
            Some(MarketError::NotInitialized)
        } else if !self.authorizes(caller) {
            Some(MarketError::Unauthorized)
        } else if !self.ideas.contains_key(idea_id) {
            Some(MarketError::IdeaNotFound)
        } else if self.ideas[idea_id].status != IdeaStatus::Voting {
            Some(MarketError::InvalidIdeaStatus)
        } else if now <= self.ideas[idea_id].vote_end_ts {
            Some(MarketError::VoteNotEnded)
        } else if !self.proposals.contains_key(proposal_id) {
            Some(MarketError::ProposalNotFound)
        } else if self.proposals[proposal_id].idea_id != idea_id {
            Some(MarketError::ProposalIdeaMismatch)
        } else if self.proposals[proposal_id].status != ProposalStatus::Submitted {
            Some(MarketError::InvalidProposalStatus)
        } else if self.escrows.contains_key(idea_id) {
            Some(MarketError::EscrowExists)
        } else if balance(self.tokens, pool_account(idea_id))
            < self.proposals[proposal_id].requested_total {
            Some(MarketError::InsufficientFunds)
        } else {
            None
        }
    }

    pub open spec fn finalize_winner_result(self, idea_id: u64, proposal_id: u64) -> MarketView {
        let idea = self.ideas[idea_id];
        let p = self.proposals[proposal_id];
        let rep = reputation_of(self.reputations, p.builder);
        MarketView {
            ideas: self.ideas.insert(
                idea_id,
                Idea { status: IdeaStatus::Building, winning_proposal: Some(proposal_id), ..idea },
            ),
            proposals: self.proposals.insert(
                proposal_id,
                Proposal { status: ProposalStatus::Accepted, ..p },
            ),
            escrows: self.escrows.insert(
                idea_id,
                EscrowState {
                    idea_id,
                    proposal_id,
                    builder: p.builder,
                    vault: escrow_account(idea_id),
                    released_amount: 0,
                    status: EscrowStatus::Active,
                },
            ),
            tokens: move_tokens(
                self.tokens.insert(escrow_account(idea_id), 0),
                pool_account(idea_id),
                escrow_account(idea_id),
                p.requested_total,
            ),
            reputations: self.reputations.insert(
                p.builder,
                ReputationProfile { proposals_won: sat_add(rep.proposals_won, 1), ..rep },
            ),
            ..self
        }
    }

    // ---- submit_milestone_proof ----
    pub open spec fn submit_proof_error(
        self,
        caller: Principal,
        proposal_id: u64,
        index: usize,
        proof: Seq<u8>,
    ) -> Option<MarketError> {
        if !self.proposals.contains_key(proposal_id) {
            Some(MarketError::ProposalNotFound)
        } else if caller != self.proposals[proposal_id].builder {
            Some(MarketError::Unauthorized)
        } else if self.proposals[proposal_id].status != ProposalStatus::Accepted {
            Some(MarketError::InvalidProposalStatus)
        } else if index >= self.proposals[proposal_id].milestones@.len() {
            Some(MarketError::InvalidMilestoneIndex)
        } else if self.proposals[proposal_id].milestones@[index as int].status
            != MilestoneStatus::Pending {
            Some(MarketError::InvalidMilestoneStatus)
        } else if proof.len() > MAX_URI_LEN {
            Some(MarketError::UriTooLong)
        } else {
            None
        }
    }

    /// `b` is `a` with only its milestone list replaced.
    pub open spec fn same_but_milestones(a: Proposal, b: Proposal) -> bool {
        &&& b.id == a.id
        &&& b.idea_id == a.idea_id
        &&& b.builder == a.builder
        &&& b.metadata == a.metadata
        &&& b.requested_total == a.requested_total
        &&& b.status == a.status
        &&& b.vote_count == a.vote_count
    }

    pub open spec fn submit_proof_done(
        self,
        t: MarketView,
        proposal_id: u64,
        index: usize,
        proof: Vec<u8>,
    ) -> bool {
        let p = self.proposals[proposal_id];
        let q = t.proposals[proposal_id];
        &&& t == MarketView {
            proposals: self.proposals.insert(proposal_id, q),
            ..self
        }
        &&& Self::same_but_milestones(p, q)
        &&& q.milestones@ == p.milestones@.update(
            index as int,
            Milestone {
                proof,
                status: MilestoneStatus::SubmittedProof,
                ..p.milestones@[index as int]
            },
        )
    }

    // ---- approve_and_release ----
    pub open spec fn approve_error(
        self,
        caller: Principal,
        idea_id: u64,
        proposal_id: u64,
        index: usize,
    ) -> Option<MarketError> {
        if self.config is None {
            Some(MarketError::NotInitialized)
        } else if !self.authorizes(caller) {
            Some(MarketError::Unauthorized)
        } else if !self.escrows.contains_key(idea_id) {
            Some(MarketError::EscrowNotFound)
        } else if self.escrows[idea_id].status != EscrowStatus::Active {
            Some(MarketError::InvalidEscrowStatus)
        } else if self.escrows[idea_id].proposal_id != proposal_id {
            Some(MarketError::EscrowProposalMismatch)
        } else if !self.proposals.contains_key(proposal_id) {
            Some(MarketError::ProposalNotFound)
        } else if self.proposals[proposal_id].status != ProposalStatus::Accepted {
            Some(MarketError::InvalidProposalStatus)
        } else if index >= self.proposals[proposal_id].milestones@.len() {
            Some(MarketError::InvalidMilestoneIndex)
        } else if self.proposals[proposal_id].milestones@[index as int].status
            != MilestoneStatus::SubmittedProof {
            Some(MarketError::InvalidMilestoneStatus)
        } else {
            move_error(
                self.tokens,
                escrow_account(idea_id),
                wallet_account(self.proposals[proposal_id].builder),
                self.proposals[proposal_id].milestones@[index as int].amount,
            )
        }
    }

    pub open spec fn approve_done(
        self,
        t: MarketView,
        idea_id: u64,
        proposal_id: u64,
        index: usize,
    ) -> bool {
        let p = self.proposals[proposal_id];
        let q = t.proposals[proposal_id];
        let e = self.escrows[idea_id];
        let m = p.milestones@[index as int];
        let rep = reputation_of(self.reputations, p.builder);
        let ms = p.milestones@.update(index as int, Milestone { status: MilestoneStatus::Approved, ..m });
        let finished = all_approved(ms);
        &&& t == MarketView {
            proposals: self.proposals.insert(proposal_id, q),
            escrows: self.escrows.insert(
                idea_id,
                EscrowState {
                    released_amount: (e.released_amount + m.amount) as u64,
                    status: if finished {
                        EscrowStatus::Finished
                    } else {
                        e.status
                    },
                    ..e
                },
            ),
            tokens: move_tokens(self.tokens, escrow_account(idea_id), wallet_account(p.builder), m.amount),
            reputations: self.reputations.insert(
                p.builder,
                ReputationProfile { milestones_completed: sat_add(rep.milestones_completed, 1), ..rep },
            ),
            ..self
        }
        &&& q.milestones@ == ms
        &&& Self::same_but_milestones(Proposal { status: q.status, ..p }, q)
        &&& q.status == if finished {
            ProposalStatus::Completed
        } else {
            p.status
        }
    }
}

pub proof fn lemma_plan_sum_step(s: Seq<MilestonePlan>, i: int)
    requires
        0 <= i < s.len(),
    ensures
        plan_sum(s.take(i + 1)) == plan_sum(s.take(i)) + s[i].amount,
{
    assert(s.take(i + 1).drop_last() =~= s.take(i));
}

pub proof fn lemma_plan_sum_prefix(s: Seq<MilestonePlan>, i: int)
    requires
        0 <= i <= s.len(),
    ensures
        plan_sum(s.take(i)) <= plan_sum(s),
    decreases s.len() - i,
{
    if i == s.len() {
        assert(s.take(i) =~= s);
    } else {
        lemma_plan_sum_step(s, i);
        lemma_plan_sum_prefix(s, i + 1);
    }
}

pub proof fn lemma_sums_agree(ms: Seq<Milestone>, plans: Seq<MilestonePlan>)
    requires
        ms.len() == plans.len(),
        forall|i: int| 0 <= i < ms.len() ==> #[trigger] ms[i].amount == plans[i].amount,
    ensures
        milestone_sum(ms) == plan_sum(plans),
    decreases ms.len(),
{
    if ms.len() > 0 {
        let (a, b) = (ms.drop_last(), plans.drop_last());
        assert forall|i: int| 0 <= i < a.len() implies #[trigger] a[i].amount == b[i].amount by {
            assert(a[i] == ms[i]);
            assert(b[i] == plans[i]);
        }
        lemma_sums_agree(a, b);
    }
}

pub proof fn lemma_none_approved_sum(ms: Seq<Milestone>)
    requires
        none_approved(ms),
    ensures
        approved_sum(ms) == 0,
    decreases ms.len(),
{
    if ms.len() > 0 {
        let a = ms.drop_last();
        assert forall|i: int| 0 <= i < a.len() implies #[trigger] a[i].status
            != MilestoneStatus::Approved by {
            assert(a[i] == ms[i]);
        }
        lemma_none_approved_sum(a);
    }
}

/// What one milestone adds to the released total.
pub open spec fn approved_part(m: Milestone) -> int {
    if m.status == MilestoneStatus::Approved {
        m.amount as int
    } else {
        0
    }
}

pub proof fn lemma_approved_sum_update(ms: Seq<Milestone>, i: int, x: Milestone)
    requires
        0 <= i < ms.len(),
    ensures
        approved_sum(ms.update(i, x)) == approved_sum(ms) - approved_part(ms[i]) + approved_part(x),
    decreases ms.len(),
{
    if i == ms.len() - 1 {
        assert(ms.update(i, x).drop_last() =~= ms.drop_last());
    } else {
        assert(ms.update(i, x).drop_last() =~= ms.drop_last().update(i, x));
        lemma_approved_sum_update(ms.drop_last(), i, x);
    }
}

pub proof fn lemma_milestone_sum_update(ms: Seq<Milestone>, i: int, x: Milestone)
    requires
        0 <= i < ms.len(),
    ensures
        milestone_sum(ms.update(i, x)) == milestone_sum(ms) - ms[i].amount + x.amount,
    decreases ms.len(),
{
    if i == ms.len() - 1 {
        assert(ms.update(i, x).drop_last() =~= ms.drop_last());
    } else {
        assert(ms.update(i, x).drop_last() =~= ms.drop_last().update(i, x));
        lemma_milestone_sum_update(ms.drop_last(), i, x);
    }
}

pub proof fn lemma_approved_le_total(ms: Seq<Milestone>)
    ensures
        0 <= approved_sum(ms) <= milestone_sum(ms),
    decreases ms.len(),
{
    if ms.len() > 0 {
        lemma_approved_le_total(ms.drop_last());
    }
}

pub proof fn lemma_adder_commutative(m: Map<u128, StakePosition>)
    ensures
        is_fun_commutative(amount_adder(m)),
{
}

/// Folding the amounts over a finite set gives the same sum for two maps that
/// agree on the set, and the sum is never negative.
pub proof fn lemma_fold_agree(s: Set<u128>, m1: Map<u128, StakePosition>, m2: Map<u128, StakePosition>)
    requires
        s.finite(),
        forall|k: u128| #[trigger] s.contains(k) ==> m1[k].amount == m2[k].amount,
    ensures
        s.fold(0int, amount_adder(m1)) == s.fold(0int, amount_adder(m2)),
        s.fold(0int, amount_adder(m1)) >= 0,
    decreases s.len(),
{
    lemma_adder_commutative(m1);
    lemma_adder_commutative(m2);
    if s.len() == 0 {
        assert(s =~= Set::<u128>::empty());
        vstd::set::fold::lemma_fold_empty::<u128, int>(0int, amount_adder(m1));
        vstd::set::fold::lemma_fold_empty::<u128, int>(0int, amount_adder(m2));
    } else {
        let k = s.choose();
        let r = s.remove(k);
        assert(r.insert(k) =~= s);
        lemma_fold_agree(r, m1, m2);
        vstd::set::fold::lemma_fold_insert(r, 0int, amount_adder(m1), k);
        vstd::set::fold::lemma_fold_insert(r, 0int, amount_adder(m2), k);
    }
}

/// The sum over a set holding `k` is the sum without `k` plus `k`'s amount.
pub proof fn lemma_fold_split(s: Set<u128>, m: Map<u128, StakePosition>, k: u128)
    requires
        s.finite(),
        s.contains(k),
    ensures
        s.fold(0int, amount_adder(m)) == s.remove(k).fold(0int, amount_adder(m)) + m[k].amount,
{
    lemma_adder_commutative(m);
    assert(s.remove(k).insert(k) =~= s);
    vstd::set::fold::lemma_fold_insert(s.remove(k), 0int, amount_adder(m), k);
}

/// How one idea's stake total changes when the position at `k` is written.
pub proof fn lemma_stake_total_insert(m: Map<u128, StakePosition>, k: u128, v: StakePosition, j: u64)
    requires
        m.dom().finite(),
    ensures
        stake_total(m.insert(k, v), j) == stake_total(m, j) - (if m.contains_key(k) && m[k].idea_id
            == j {
            m[k].amount as int
        } else {
            0
        }) + (if v.idea_id == j {
            v.amount as int
        } else {
            0
        }),
        stake_total(m, j) >= 0,
{
    let m2 = m.insert(k, v);
    let s1 = stake_keys(m, j);
    let s2 = stake_keys(m2, j);
    let base = s1.remove(k);
    assert(m2.dom() =~= m.dom().insert(k));
    assert(s1.finite()) by {
        m.dom().lemma_len_filter(|x: u128| m[x].idea_id == j);
    }
    assert(s2.finite()) by {
        m2.dom().lemma_len_filter(|x: u128| m2[x].idea_id == j);
    }
    assert(s2.remove(k) =~= base);
    lemma_fold_agree(base, m, m2);
    lemma_fold_agree(s1, m, m);
    if m.contains_key(k) && m[k].idea_id == j {
        lemma_fold_split(s1, m, k);
    } else {
        assert(base =~= s1);
    }
    if v.idea_id == j {
        lemma_fold_split(s2, m2, k);
    } else {
        assert(base =~= s2);
    }
}

/// No position of an idea holds more than the idea's stake total.
pub proof fn lemma_position_within_total(m: Map<u128, StakePosition>, k: u128)
    requires
        m.dom().finite(),
        m.contains_key(k),
    ensures
        m[k].amount <= stake_total(m, m[k].idea_id),
{
    let j = m[k].idea_id;
    let s1 = stake_keys(m, j);
    assert(s1.finite()) by {
        m.dom().lemma_len_filter(|x: u128| m[x].idea_id == j);
    }
    lemma_fold_split(s1, m, k);
    lemma_fold_agree(s1.remove(k), m, m);
}

} // verus!
