use std::collections::HashMap;
use vstd::prelude::*;
use crate::model::{
    amount_adder, lemma_stake_total_insert, stake_keys, stake_total, balance, currency_error, currency_of, escrow_account, lemma_approved_le_total,
    lemma_approved_sum_update, lemma_milestone_sum_update, lemma_none_approved_sum,
    lemma_plan_sum_prefix, lemma_plan_sum_step, lemma_sums_agree, move_currency, move_error,
    move_tokens, pair_key, pool_account, reputation_of, wallet_account, MarketView,
};
use crate::types::{
    plan_sum, Config, EscrowState, EscrowStatus, Idea, IdeaStatus, MarketError, Milestone,
    MilestonePlan, MilestoneStatus, Principal, Proposal, ProposalStatus, ReputationProfile,
    StakePosition, StakeStatus, VoteRecord, MAX_COMMITTEE, MAX_MILESTONES, MAX_URI_LEN,
};

verus! {

/// The ledger of one marketplace: every record, keyed by its deterministic
/// identity, and the balances of every account it knows.
pub struct Market {
    config: Option<Config>,
    ideas: HashMap<u64, Idea>,
    stakes: HashMap<u128, StakePosition>,
    proposals: HashMap<u64, Proposal>,
    votes: HashMap<u128, VoteRecord>,
    escrows: HashMap<u64, EscrowState>,
    reputations: HashMap<u64, ReputationProfile>,
    tokens: HashMap<u128, u64>,
    currency: HashMap<u64, u64>,
}

impl View for Market {
    type V = MarketView;

    closed spec fn view(&self) -> MarketView {
        MarketView {
            config: self.config,
            ideas: self.ideas@,
            stakes: self.stakes@,
            proposals: self.proposals@,
            votes: self.votes@,
            escrows: self.escrows@,
            reputations: self.reputations@,
            tokens: self.tokens@,
            currency: self.currency@,
        }
    }
}

/// Builds the identity of a record from its parent id and sub-key.
pub fn make_pair_key(a: u64, b: u64) -> (r: u128)
    ensures
        r == pair_key(a, b),
{
    (a as u128) * 0x1_0000_0000_0000_0000u128 + (b as u128)
}

impl Market {
    /// An empty ledger, with no configuration yet.
    pub fn new() -> (m: Market)
        ensures
            m@.config is None,
            m@.ideas == Map::<u64, Idea>::empty(),
            m@.stakes == Map::<u128, StakePosition>::empty(),
            m@.proposals == Map::<u64, Proposal>::empty(),
            m@.votes == Map::<u128, VoteRecord>::empty(),
            m@.escrows == Map::<u64, EscrowState>::empty(),
            m@.reputations == Map::<u64, ReputationProfile>::empty(),
            m@.tokens == Map::<u128, u64>::empty(),
            m@.currency == Map::<u64, u64>::empty(),
            m@.wf(),
    {
        Market {
            config: None,
            ideas: HashMap::new(),
            stakes: HashMap::new(),
            proposals: HashMap::new(),
            votes: HashMap::new(),
            escrows: HashMap::new(),
            reputations: HashMap::new(),
            tokens: HashMap::new(),
            currency: HashMap::new(),
        }
    }

    fn token_balance(&self, k: u128) -> (r: u64)
        ensures
            r == balance(self@.tokens, k),
    {
        match self.tokens.get(&k) {
            Some(v) => *v,
            None => 0,
        }
    }

    fn currency_balance(&self, p: Principal) -> (r: u64)
        ensures
            r == currency_of(self@.currency, p),
    {
        match self.currency.get(&p) {
            Some(v) => *v,
            None => 0,
        }
    }

    fn check_move(&self, from: u128, to: u128, amount: u64) -> (r: Option<MarketError>)
        ensures
            r == move_error(self@.tokens, from, to, amount),
    {
        let fb = self.token_balance(from);
        if fb < amount {
            return Some(MarketError::InsufficientFunds);
        }
        if from != to {
            let tb = self.token_balance(to);
            if tb > u64::MAX - amount {
                return Some(MarketError::MathOverflow);
            }
        }
        None
    }

    /// Moves funds between two accounts. Vaults are reached only through here,
    /// from the operations of this ledger.
    fn apply_move(&mut self, from: u128, to: u128, amount: u64)
        requires
            move_error(old(self)@.tokens, from, to, amount) is None,
        ensures
            final(self)@ == (MarketView {
                tokens: move_tokens(old(self)@.tokens, from, to, amount),
                ..old(self)@
            }),
    {
        let fb = self.token_balance(from);
        self.tokens.insert(from, fb - amount);
        let tb = self.token_balance(to);
        self.tokens.insert(to, tb + amount);
    }

    fn check_currency(&self, from: Principal, to: Principal, amount: u64) -> (r: Option<MarketError>)
        ensures
            r == currency_error(self@.currency, from, to, amount),
    {
        let fb = self.currency_balance(from);
        if fb < amount {
            return Some(MarketError::InsufficientFunds);
        }
        if from != to {
            let tb = self.currency_balance(to);
            if tb > u64::MAX - amount {
                return Some(MarketError::MathOverflow);
            }
        }
        None
    }

    fn apply_currency(&mut self, from: Principal, to: Principal, amount: u64)
        requires
            currency_error(old(self)@.currency, from, to, amount) is None,
        ensures
            final(self)@ == (MarketView {
                currency: move_currency(old(self)@.currency, from, to, amount),
                ..old(self)@
            }),
    {
        let fb = self.currency_balance(from);
        self.currency.insert(from, fb - amount);
        let tb = self.currency_balance(to);
        self.currency.insert(to, tb + amount);
    }

    /// Creates the configuration, with the caller as administrator and sole
    /// committee member. It can happen once.
    pub fn initialize_config(
        &mut self,
        caller: Principal,
        accepted_asset: u64,
        fee: u64,
        vote_duration: i64,
    ) -> (r: Result<(), MarketError>)
        requires
            old(self)@.wf(),
        ensures
            match r {
                Ok(()) => old(self)@.initialize_config_error() is None
                    && old(self)@.initialize_config_done(
                    final(self)@,
                    caller,
                    accepted_asset,
                    fee,
                    vote_duration,
                ),
                Err(e) => old(self)@.initialize_config_error() == Some(e) && final(self)@
                    == old(self)@,
            },
            old(self)@.evolves_to(final(self)@),
    {
        if self.config.is_some() {
            return Err(MarketError::AlreadyInitialized);
        }
        let mut committee: Vec<Principal> = Vec::new();
        committee.push(caller);
        assert(committee@ =~= seq![caller]);
        self.config = Some(
            Config { admin: caller, accepted_asset, proposal_fee: fee, vote_duration, committee },
        );
        Ok(())
    }

    /// Replaces the committee wholesale; only the administrator may.
    pub fn set_committee(&mut self, caller: Principal, committee: Vec<Principal>) -> (r: Result<
        (),
        MarketError,
    >)
        requires
            old(self)@.wf(),
        ensures
            match r {
                Ok(()) => old(self)@.set_committee_error(caller, committee@) is None && final(self)@ == old(self)@.set_committee_result(committee),
                Err(e) => old(self)@.set_committee_error(caller, committee@) == Some(e) && final(self)@ == old(self)@,
            },
            old(self)@.evolves_to(final(self)@),
    {
        match &self.config {
            None => {
                return Err(MarketError::NotInitialized);
            },
            Some(c) => {
                if caller != c.admin {
                    return Err(MarketError::Unauthorized);
                }
            },
        }
        if committee.len() < 1 || committee.len() > MAX_COMMITTEE {
            return Err(MarketError::InvalidCommittee);
        }
        match &mut self.config {
            Some(c) => {
                c.committee = committee;
            },
            None => {},
        }
        Ok(())
    }

    /// Credits a principal's funding account with assets arriving from outside.
    pub fn deposit(&mut self, owner: Principal, amount: u64) -> (r: Result<(), MarketError>)
        requires
            old(self)@.wf(),
        ensures
            match r {
                Ok(()) => old(self)@.deposit_error(owner, amount) is None && final(self)@ == old(self)@.deposit_result(owner, amount),
                Err(e) => old(self)@.deposit_error(owner, amount) == Some(e) && final(self)@
                    == old(self)@,
            },
            old(self)@.evolves_to(final(self)@),
    {
        let k = make_pair_key(0, owner);
        let b = self.token_balance(k);
        if b > u64::MAX - amount {
            return Err(MarketError::MathOverflow);
        }
        self.tokens.insert(k, b + amount);
        Ok(())
    }

    /// Credits a principal with direct currency arriving from outside.
    pub fn deposit_currency(&mut self, owner: Principal, amount: u64) -> (r: Result<(), MarketError>)
        requires
            old(self)@.wf(),
        ensures
            match r {
                Ok(()) => old(self)@.deposit_currency_error(owner, amount) is None && final(self)@ == old(self)@.deposit_currency_result(owner, amount),
                Err(e) => old(self)@.deposit_currency_error(owner, amount) == Some(e) && final(self)@ == old(self)@,
            },
            old(self)@.evolves_to(final(self)@),
    {
        let b = self.currency_balance(owner);
        if b > u64::MAX - amount {
            return Err(MarketError::MathOverflow);
        }
        self.currency.insert(owner, b + amount);
        Ok(())
    }

    /// Opens a campaign with its own empty pool vault.
    pub fn create_idea(&mut self, caller: Principal, idea_id: u64, metadata: Vec<u8>) -> (r: Result<
        (),
        MarketError,
    >)
        requires
            old(self)@.wf(),
        ensures
            match r {
                Ok(()) => old(self)@.create_idea_error(idea_id, metadata@) is None && final(self)@ == old(self)@.create_idea_result(caller, idea_id, metadata),
                Err(e) => old(self)@.create_idea_error(idea_id, metadata@) == Some(e) && final(self)@ == old(self)@,
            },
            old(self)@.evolves_to(final(self)@),
    {
        let asset = match &self.config {
            None => {
                return Err(MarketError::NotInitialized);
            },
            Some(c) => c.accepted_asset,
        };
        if metadata.len() > MAX_URI_LEN {
            return Err(MarketError::UriTooLong);
        }
        if self.ideas.contains_key(&idea_id) {
            return Err(MarketError::IdeaExists);
        }
        let pool = make_pair_key(1, idea_id);
        self.ideas.insert(
            idea_id,
            Idea {
                id: idea_id,
                creator: caller,
                metadata,
                accepted_asset: asset,
                status: IdeaStatus::Open,
                total_staked: 0,
                vote_end_ts: 0,
                winning_proposal: None,
                pool_vault: pool,
            },
        );
        self.tokens.insert(pool, 0);
        proof {
            let st = old(self)@.stakes;
            assert(stake_keys(st, idea_id) =~= Set::<u128>::empty());
            vstd::set::fold::lemma_fold_empty::<u128, int>(0int, amount_adder(st));
        }
        Ok(())
    }

    /// Closes staking and opens the vote window of an idea.
    pub fn start_voting(&mut self, caller: Principal, idea_id: u64, now: i64) -> (r: Result<
        (),
        MarketError,
    >)
        requires
            old(self)@.wf(),
        ensures
            match r {
                Ok(()) => old(self)@.start_voting_error(caller, idea_id, now) is None && final(self)@ == old(self)@.start_voting_result(idea_id, now),
                Err(e) => old(self)@.start_voting_error(caller, idea_id, now) == Some(e) && final(self)@ == old(self)@,
            },
            old(self)@.evolves_to(final(self)@),
    {
        let duration = match &self.config {
            None => {
                return Err(MarketError::NotInitialized);
            },
            Some(c) => {
                if !c.is_committee_authorized(caller) {
                    return Err(MarketError::Unauthorized);
                }
                c.vote_duration
            },
        };
        match self.ideas.get(&idea_id) {
            None => {
                return Err(MarketError::IdeaNotFound);
            },
            Some(idea) => {
                if idea.status != IdeaStatus::Open {
                    return Err(MarketError::InvalidIdeaStatus);
                }
            },
        }
        let end = match now.checked_add(duration) {
            None => {
                return Err(MarketError::MathOverflow);
            },
            Some(e) => e,
        };
        let ghost s = self@;
        match self.ideas.remove(&idea_id) {
            Some(mut idea) => {
                idea.status = IdeaStatus::Voting;
                idea.vote_end_ts = end;
                self.ideas.insert(idea_id, idea);
            },
            None => {},
        }
        assert(self@.ideas =~= s.start_voting_result(idea_id, now).ideas);
        Ok(())
    }

    fn reputation(&self, w: Principal) -> (r: ReputationProfile)
        ensures
            r == reputation_of(self@.reputations, w),
    {
        match self.reputations.get(&w) {
            Some(rep) => *rep,
            None => ReputationProfile {
                wallet: w,
                proposals_won: 0,
                milestones_completed: 0,
                support_count: 0,
                support_amount_total: 0,
            },
        }
    }

    /// Moves `amount` from the caller's funding account into an open idea's pool
    /// and records it in the caller's stake position.
    pub fn stake(&mut self, caller: Principal, idea_id: u64, amount: u64) -> (r: Result<
        (),
        MarketError,
    >)
        requires
            old(self)@.wf(),
        ensures
            match r {
                Ok(()) => old(self)@.stake_error(caller, idea_id, amount) is None && final(self)@
                    == old(self)@.stake_result(caller, idea_id, amount),
                Err(e) => old(self)@.stake_error(caller, idea_id, amount) == Some(e) && final(self)@
                    == old(self)@,
            },
            old(self)@.evolves_to(final(self)@),
    {
        let total = match self.ideas.get(&idea_id) {
            None => {
                return Err(MarketError::IdeaNotFound);
            },
            Some(idea) => {
                if idea.status != IdeaStatus::Open {
                    return Err(MarketError::InvalidIdeaStatus);
                }
                idea.total_staked
            },
        };
        if amount == 0 {
            return Err(MarketError::InvalidAmount);
        }
        let wallet = make_pair_key(0, caller);
        let pool = make_pair_key(1, idea_id);
        match self.check_move(wallet, pool, amount) {
            Some(e) => {
                return Err(e);
            },
            None => {},
        }
        let sk = make_pair_key(idea_id, caller);
        let prev = match self.stakes.get(&sk) {
            Some(pos) => pos.amount,
            None => 0,
        };
        if total > u64::MAX - amount || prev > u64::MAX - amount {
            return Err(MarketError::MathOverflow);
        }
        let ghost s = self@;
        self.apply_move(wallet, pool, amount);
        match self.ideas.remove(&idea_id) {
            Some(mut idea) => {
                idea.total_staked = total + amount;
                self.ideas.insert(idea_id, idea);
            },
            None => {},
        }
        self.stakes.insert(
            sk,
            StakePosition {
                idea_id,
                supporter: caller,
                amount: prev + amount,
                status: StakeStatus::Active,
            },
        );
        let rep = self.reputation(caller);
        self.reputations.insert(
            caller,
            ReputationProfile {
                support_count: rep.support_count.saturating_add(1),
                support_amount_total: rep.support_amount_total.saturating_add(amount),
                ..rep
            },
        );
        assert(self@.ideas =~= s.stake_result(caller, idea_id, amount).ideas);
        proof {
            let st = s.stakes;
            let v = self@.stakes[sk];
            assert(st.contains_key(sk) ==> st[sk].idea_id == idea_id);
            assert forall|j: u64| #[trigger] self@.ideas.contains_key(j) implies self@.ideas[j].total_staked
                == stake_total(self@.stakes, j) by {
                lemma_stake_total_insert(st, sk, v, j);
            }
        }
        Ok(())
    }

    /// Gives `amount` back from the pool to the supporter, while the idea is
    /// open or voting. Only the position's owner may ask.
    pub fn refund_stake(
        &mut self,
        caller: Principal,
        idea_id: u64,
        supporter: Principal,
        amount: u64,
    ) -> (r: Result<(), MarketError>)
        requires
            old(self)@.wf(),
        ensures
            match r {
                Ok(()) => old(self)@.refund_stake_error(caller, idea_id, supporter, amount) is None
                    && final(self)@ == old(self)@.refund_stake_result(idea_id, supporter, amount),
                Err(e) => old(self)@.refund_stake_error(caller, idea_id, supporter, amount) == Some(
                    e,
                ) && final(self)@ == old(self)@,
            },
            old(self)@.evolves_to(final(self)@),
    {
        let total = match self.ideas.get(&idea_id) {
            None => {
                return Err(MarketError::IdeaNotFound);
            },
            Some(idea) => {
                if idea.status != IdeaStatus::Open && idea.status != IdeaStatus::Voting {
                    return Err(MarketError::InvalidIdeaStatus);
                }
                idea.total_staked
            },
        };
        let sk = make_pair_key(idea_id, supporter);
        let pos = match self.stakes.get(&sk) {
            None => {
                return Err(MarketError::StakeNotFound);
            },
            Some(pos) => *pos,
        };
        if caller != supporter {
            return Err(MarketError::Unauthorized);
        }
        if pos.amount < amount {
            return Err(MarketError::InsufficientStake);
        }
        if total < amount {
            return Err(MarketError::MathOverflow);
        }
        let pool = make_pair_key(1, idea_id);
        let wallet = make_pair_key(0, supporter);
        match self.check_move(pool, wallet, amount) {
            Some(e) => {
                return Err(e);
            },
            None => {},
        }
        let ghost s = self@;
        self.apply_move(pool, wallet, amount);
        match self.ideas.remove(&idea_id) {
            Some(mut idea) => {
                idea.total_staked = total - amount;
                self.ideas.insert(idea_id, idea);
            },
            None => {},
        }
        let left = pos.amount - amount;
        let status = if left == 0 {
            StakeStatus::Refunded
        } else {
            pos.status
        };
        self.stakes.insert(sk, StakePosition { amount: left, status, ..pos });
        assert(self@.ideas =~= s.refund_stake_result(idea_id, supporter, amount).ideas);
        proof {
            let st = s.stakes;
            let v = self@.stakes[sk];
            assert(st[sk].idea_id == idea_id);
            assert forall|j: u64| #[trigger] self@.ideas.contains_key(j) implies self@.ideas[j].total_staked
                == stake_total(self@.stakes, j) by {
                lemma_stake_total_insert(st, sk, v, j);
            }
        }
        Ok(())
    }

    /// Records a builder's bid on an open idea, charging the proposal fee. The
    /// schedule has one to three milestones, each above zero, adding up exactly
    /// to `requested_total`.
    #[verifier::loop_isolation(false)]
    pub fn submit_proposal(
        &mut self,
        caller: Principal,
        idea_id: u64,
        proposal_id: u64,
        requested_total: u64,
        metadata: Vec<u8>,
        plans: Vec<MilestonePlan>,
    ) -> (r: Result<(), MarketError>)
        requires
            old(self)@.wf(),
        ensures
            match r {
                Ok(()) => old(self)@.submit_proposal_error(
                    caller,
                    idea_id,
                    proposal_id,
                    requested_total,
                    metadata@,
                    plans@,
                ) is None && old(self)@.submit_proposal_done(
                    final(self)@,
                    caller,
                    idea_id,
                    proposal_id,
                    requested_total,
                    metadata,
                    plans@,
                ),
                Err(e) => old(self)@.submit_proposal_error(
                    caller,
                    idea_id,
                    proposal_id,
                    requested_total,
                    metadata@,
                    plans@,
                ) == Some(e) && final(self)@ == old(self)@,
            },
            old(self)@.evolves_to(final(self)@),
    {
        let (fee, admin) = match &self.config {
            None => {
                return Err(MarketError::NotInitialized);
            },
            Some(c) => (c.proposal_fee, c.admin),
        };
        match self.ideas.get(&idea_id) {
            None => {
                return Err(MarketError::IdeaNotFound);
            },
            Some(idea) => {
                if idea.status != IdeaStatus::Open {
                    return Err(MarketError::InvalidIdeaStatus);
                }
            },
        }
        if self.proposals.contains_key(&proposal_id) {
            return Err(MarketError::ProposalExists);
        }
        if metadata.len() > MAX_URI_LEN {
            return Err(MarketError::UriTooLong);
        }
        if plans.len() < 1 || plans.len() > MAX_MILESTONES {
            return Err(MarketError::InvalidMilestones);
        }
        let mut i: usize = 0;
        while i < plans.len()
            invariant
                i <= plans@.len(),
                forall|j: int| 0 <= j < i ==> #[trigger] plans@[j].amount != 0,
            decreases plans@.len() - i,
        {
            if plans[i].amount == 0 {
                return Err(MarketError::InvalidMilestones);
            }
            i = i + 1;
        }
        let mut sum: u64 = 0;
        i = 0;
        while i < plans.len()
            invariant
                i <= plans@.len(),
                sum == plan_sum(plans@.take(i as int)),
            decreases plans@.len() - i,
        {
            proof {
                lemma_plan_sum_step(plans@, i as int);
            }
            match sum.checked_add(plans[i].amount) {
                None => {
                    proof {
                        lemma_plan_sum_prefix(plans@, i + 1);
                    }
                    return Err(MarketError::MathOverflow);
                },
                Some(t) => {
                    sum = t;
                },
            }
            i = i + 1;
        }
        assert(plans@.take(plans@.len() as int) =~= plans@);
        if sum != requested_total {
            return Err(MarketError::MilestoneSumMismatch);
        }
        if fee > 0 {
            match self.check_currency(caller, admin, fee) {
                Some(e) => {
                    return Err(e);
                },
                None => {},
            }
        }
        let mut milestones: Vec<Milestone> = Vec::new();
        i = 0;
        while i < plans.len()
            invariant
                i <= plans@.len(),
                milestones@.len() == i,
                forall|j: int|
                    #![trigger milestones@[j]]
                    0 <= j < i ==> {
                        &&& milestones@[j].amount == plans@[j].amount
                        &&& milestones@[j].deadline == plans@[j].deadline
                        &&& milestones@[j].proof@ == Seq::<u8>::empty()
                        &&& milestones@[j].status == MilestoneStatus::Pending
                    },
            decreases plans@.len() - i,
        {
            let proof: Vec<u8> = Vec::new();
            let m = Milestone {
                amount: plans[i].amount,
                deadline: plans[i].deadline,
                proof,
                status: MilestoneStatus::Pending,
            };
            milestones.push(m);
            assert(milestones@[i as int] == m);
            i = i + 1;
        }
        proof {
            lemma_sums_agree(milestones@, plans@);
        }
        if fee > 0 {
            self.apply_currency(caller, admin, fee);
        }
        self.proposals.insert(
            proposal_id,
            Proposal {
                id: proposal_id,
                idea_id,
                builder: caller,
                metadata,
                requested_total,
                status: ProposalStatus::Submitted,
                vote_count: 0,
                milestones,
            },
        );
        proof {
            let (o, t) = (old(self)@, self@);
            assert(t.proposals =~= o.proposals.insert(proposal_id, t.proposals[proposal_id]));
            assert(!(exists|j: int| 0 <= j < plans@.len() && #[trigger] plans@[j].amount == 0));
            assert forall|k: u64| #[trigger] t.escrows.contains_key(k) implies t.escrows[k].proposal_id
                != proposal_id by {
                assert(o.proposals.contains_key(o.escrows[k].proposal_id));
            }
        }
        Ok(())
    }

    /// Records the caller's single vote on an idea for one of its proposals,
    /// while the vote window is open.
    pub fn cast_vote(&mut self, caller: Principal, idea_id: u64, proposal_id: u64, now: i64) -> (r:
        Result<(), MarketError>)
        requires
            old(self)@.wf(),
        ensures
            match r {
                Ok(()) => old(self)@.cast_vote_error(caller, idea_id, proposal_id, now) is None
                    && final(self)@ == old(self)@.cast_vote_result(caller, idea_id, proposal_id),
                Err(e) => old(self)@.cast_vote_error(caller, idea_id, proposal_id, now) == Some(e)
                    && final(self)@ == old(self)@,
            },
            old(self)@.evolves_to(final(self)@),
    {
        match self.ideas.get(&idea_id) {
            None => {
                return Err(MarketError::IdeaNotFound);
            },
            Some(idea) => {
                if idea.status != IdeaStatus::Voting {
                    return Err(MarketError::InvalidIdeaStatus);
                }
                if now > idea.vote_end_ts {
                    return Err(MarketError::VoteEnded);
                }
            },
        }
        let count = match self.proposals.get(&proposal_id) {
            None => {
                return Err(MarketError::ProposalNotFound);
            },
            Some(p) => {
                if p.idea_id != idea_id {
                    return Err(MarketError::ProposalIdeaMismatch);
                }
                p.vote_count
            },
        };
        let vk = make_pair_key(idea_id, caller);
        if self.votes.contains_key(&vk) {
            return Err(MarketError::AlreadyVoted);
        }
        if count == u64::MAX {
            return Err(MarketError::MathOverflow);
        }
        let ghost s = self@;
        match self.proposals.remove(&proposal_id) {
            Some(mut p) => {
                p.vote_count = count + 1;
                self.proposals.insert(proposal_id, p);
            },
            None => {},
        }
        self.votes.insert(vk, VoteRecord { idea_id, voter: caller, proposal_id });
        assert(self@.proposals =~= s.cast_vote_result(caller, idea_id, proposal_id).proposals);
        Ok(())
    }

    /// Closes the vote: the named proposal wins, an escrow is opened for it and
    /// its requested total moves from the idea's pool into the escrow vault.
    pub fn finalize_winner(
        &mut self,
        caller: Principal,
        idea_id: u64,
        proposal_id: u64,
        now: i64,
    ) -> (r: Result<(), MarketError>)
        requires
            old(self)@.wf(),
        ensures
            match r {
                Ok(()) => old(self)@.finalize_winner_error(caller, idea_id, proposal_id, now) is None
                    && final(self)@ == old(self)@.finalize_winner_result(idea_id, proposal_id),
                Err(e) => old(self)@.finalize_winner_error(caller, idea_id, proposal_id, now)
                    == Some(e) && final(self)@ == old(self)@,
            },
            old(self)@.evolves_to(final(self)@),
    {
        match &self.config {
            None => {
                return Err(MarketError::NotInitialized);
            },
            Some(c) => {
                if !c.is_committee_authorized(caller) {
                    return Err(MarketError::Unauthorized);
                }
            },
        }
        match self.ideas.get(&idea_id) {
            None => {
                return Err(MarketError::IdeaNotFound);
            },
            Some(idea) => {
                if idea.status != IdeaStatus::Voting {
                    return Err(MarketError::InvalidIdeaStatus);
                }
                if now <= idea.vote_end_ts {
                    return Err(MarketError::VoteNotEnded);
                }
            },
        }
        let (requested, builder) = match self.proposals.get(&proposal_id) {
            None => {
                return Err(MarketError::ProposalNotFound);
            },
            Some(p) => {
                if p.idea_id != idea_id {
                    return Err(MarketError::ProposalIdeaMismatch);
                }
                if p.status != ProposalStatus::Submitted {
                    return Err(MarketError::InvalidProposalStatus);
                }
                (p.requested_total, p.builder)
            },
        };
        if self.escrows.contains_key(&idea_id) {
            return Err(MarketError::EscrowExists);
        }
        let pool = make_pair_key(1, idea_id);
        let vault = make_pair_key(2, idea_id);
        if self.token_balance(pool) < requested {
            return Err(MarketError::InsufficientFunds);
        }
        let ghost s = self@;
        proof {
            lemma_none_approved_sum(s.proposals[proposal_id].milestones@);
        }
        self.tokens.insert(vault, 0);
        self.apply_move(pool, vault, requested);
        match self.ideas.remove(&idea_id) {
            Some(mut idea) => {
                idea.status = IdeaStatus::Building;
                idea.winning_proposal = Some(proposal_id);
                self.ideas.insert(idea_id, idea);
            },
            None => {},
        }
        match self.proposals.remove(&proposal_id) {
            Some(mut p) => {
                p.status = ProposalStatus::Accepted;
                self.proposals.insert(proposal_id, p);
            },
            None => {},
        }
        self.escrows.insert(
            idea_id,
            EscrowState {
                idea_id,
                proposal_id,
                builder,
                vault,
                released_amount: 0,
                status: EscrowStatus::Active,
            },
        );
        let rep = self.reputation(builder);
        self.reputations.insert(
            builder,
            ReputationProfile { proposals_won: rep.proposals_won.saturating_add(1), ..rep },
        );
        proof {
            let t = self@;
            let goal = s.finalize_winner_result(idea_id, proposal_id);
            assert(t.ideas =~= goal.ideas);
            assert(t.proposals =~= goal.proposals);
            assert forall|k: u64| #[trigger] t.escrows.contains_key(k) && k != idea_id implies
                t.escrows[k].proposal_id != proposal_id by {
                assert(s.escrows.contains_key(k));
            }
        }
        Ok(())
    }

    /// The builder hands in the proof of a pending milestone of an accepted proposal.
    pub fn submit_milestone_proof(
        &mut self,
        caller: Principal,
        proposal_id: u64,
        index: usize,
        proof: Vec<u8>,
    ) -> (r: Result<(), MarketError>)
        requires
            old(self)@.wf(),
        ensures
            match r {
                Ok(()) => old(self)@.submit_proof_error(caller, proposal_id, index, proof@) is None
                    && old(self)@.submit_proof_done(final(self)@, proposal_id, index, proof),
                Err(e) => old(self)@.submit_proof_error(caller, proposal_id, index, proof@) == Some(
                    e,
                ) && final(self)@ == old(self)@,
            },
            old(self)@.evolves_to(final(self)@),
    {
        match self.proposals.get(&proposal_id) {
            None => {
                return Err(MarketError::ProposalNotFound);
            },
            Some(p) => {
                if caller != p.builder {
                    return Err(MarketError::Unauthorized);
                }
                if p.status != ProposalStatus::Accepted {
                    return Err(MarketError::InvalidProposalStatus);
                }
                if index >= p.milestones.len() {
                    return Err(MarketError::InvalidMilestoneIndex);
                }
                if p.milestones[index].status != MilestoneStatus::Pending {
                    return Err(MarketError::InvalidMilestoneStatus);
                }
            },
        }
        if proof.len() > MAX_URI_LEN {
            return Err(MarketError::UriTooLong);
        }
        let ghost s = self@;
        match self.proposals.remove(&proposal_id) {
            Some(mut p) => {
                let ghost before = p.milestones@;
                let mut m = p.milestones.remove(index);
                m.proof = proof;
                m.status = MilestoneStatus::SubmittedProof;
                p.milestones.insert(index, m);
                assert(p.milestones@ =~= before.update(index as int, m));
                proof {
                    lemma_approved_sum_update(before, index as int, m);
                    lemma_milestone_sum_update(before, index as int, m);
                }
                self.proposals.insert(proposal_id, p);
            },
            None => {},
        }
        proof {
            let t = self@;
            assert(t.proposals =~= s.proposals.insert(proposal_id, t.proposals[proposal_id]));
            assert forall|k: u64| #[trigger]
                t.escrows.contains_key(k) && t.escrows[k].proposal_id == proposal_id implies
                t.proposals[proposal_id].idea_id == k by {
                assert(s.escrows.contains_key(k));
            }
        }
        Ok(())
    }

    /// Approves a milestone whose proof was handed in and pays its amount from the
    /// escrow vault to the builder. When every milestone is approved the proposal
    /// is completed and the escrow finished.
    pub fn approve_and_release(
        &mut self,
        caller: Principal,
        idea_id: u64,
        proposal_id: u64,
        index: usize,
    ) -> (r: Result<(), MarketError>)
        requires
            old(self)@.wf(),
        ensures
            match r {
                Ok(()) => old(self)@.approve_error(caller, idea_id, proposal_id, index) is None
                    && old(self)@.approve_done(final(self)@, idea_id, proposal_id, index),
                Err(e) => old(self)@.approve_error(caller, idea_id, proposal_id, index) == Some(e)
                    && final(self)@ == old(self)@,
            },
            old(self)@.evolves_to(final(self)@),
    {
        match &self.config {
            None => {
                return Err(MarketError::NotInitialized);
            },
            Some(c) => {
                if !c.is_committee_authorized(caller) {
                    return Err(MarketError::Unauthorized);
                }
            },
        }
        let e = match self.escrows.get(&idea_id) {
            None => {
                return Err(MarketError::EscrowNotFound);
            },
            Some(e) => *e,
        };
        if e.status != EscrowStatus::Active {
            return Err(MarketError::InvalidEscrowStatus);
        }
        if e.proposal_id != proposal_id {
            return Err(MarketError::EscrowProposalMismatch);
        }
        let (builder, amount) = match self.proposals.get(&proposal_id) {
            None => {
                return Err(MarketError::ProposalNotFound);
            },
            Some(p) => {
                if p.status != ProposalStatus::Accepted {
                    return Err(MarketError::InvalidProposalStatus);
                }
                if index >= p.milestones.len() {
                    return Err(MarketError::InvalidMilestoneIndex);
                }
                if p.milestones[index].status != MilestoneStatus::SubmittedProof {
                    return Err(MarketError::InvalidMilestoneStatus);
                }
                (p.builder, p.milestones[index].amount)
            },
        };
        let vault = make_pair_key(2, idea_id);
        let wallet = make_pair_key(0, builder);
        match self.check_move(vault, wallet, amount) {
            Some(err) => {
                return Err(err);
            },
            None => {},
        }
        let ghost s = self@;
        let ghost ms = s.proposals[proposal_id].milestones@;
        let ghost approved = Milestone { status: MilestoneStatus::Approved, ..ms[index as int] };
        proof {
            lemma_approved_sum_update(ms, index as int, approved);
            lemma_milestone_sum_update(ms, index as int, approved);
            lemma_approved_le_total(ms.update(index as int, approved));
        }
        self.apply_move(vault, wallet, amount);
        let mut finished = false;
        match self.proposals.remove(&proposal_id) {
            Some(mut p) => {
                let mut m = p.milestones.remove(index);
                m.status = MilestoneStatus::Approved;
                p.milestones.insert(index, m);
                assert(p.milestones@ =~= ms.update(index as int, approved));
                let mut all = true;
                let mut j: usize = 0;
                while j < p.milestones.len()
                    invariant
                        j <= p.milestones@.len(),
                        all == (forall|k: int|
                            0 <= k < j ==> #[trigger] p.milestones@[k].status
                                == MilestoneStatus::Approved),
                    decreases p.milestones@.len() - j,
                {
                    if p.milestones[j].status != MilestoneStatus::Approved {
                        all = false;
                    }
                    j = j + 1;
                }
                if all {
                    p.status = ProposalStatus::Completed;
                }
                finished = all;
                self.proposals.insert(proposal_id, p);
            },
            None => {},
        }
        let status = if finished {
            EscrowStatus::Finished
        } else {
            e.status
        };
        self.escrows.insert(
            idea_id,
            EscrowState { released_amount: e.released_amount + amount, status, ..e },
        );
        let rep = self.reputation(builder);
        self.reputations.insert(
            builder,
            ReputationProfile {
                milestones_completed: rep.milestones_completed.saturating_add(1),
                ..rep
            },
        );
        proof {
            let t = self@;
            assert(t.proposals =~= s.proposals.insert(proposal_id, t.proposals[proposal_id]));
            assert forall|k: u64| #[trigger] t.escrows.contains_key(k) && k != idea_id implies
                t.escrows[k].proposal_id != proposal_id by {
                assert(s.escrows.contains_key(k));
            }
        }
        Ok(())
    }

    pub fn config(&self) -> (r: Option<&Config>)
        ensures
            match r {
                Some(c) => self@.config == Some(*c),
                None => self@.config is None,
            },
    {
        match &self.config {
            Some(c) => Some(c),
            None => None,
        }
    }

    pub fn idea(&self, idea_id: u64) -> (r: Option<&Idea>)
        ensures
            match r {
                Some(i) => self@.ideas.contains_key(idea_id) && self@.ideas[idea_id] == *i,
                None => !self@.ideas.contains_key(idea_id),
            },
    {
        self.ideas.get(&idea_id)
    }

    pub fn proposal(&self, proposal_id: u64) -> (r: Option<&Proposal>)
        ensures
            match r {
                Some(p) => self@.proposals.contains_key(proposal_id) && self@.proposals[proposal_id]
                    == *p,
                None => !self@.proposals.contains_key(proposal_id),
            },
    {
        self.proposals.get(&proposal_id)
    }

    pub fn stake_position(&self, idea_id: u64, supporter: Principal) -> (r: Option<StakePosition>)
        ensures
            r == (if self@.stakes.contains_key(pair_key(idea_id, supporter)) {
                Some(self@.stakes[pair_key(idea_id, supporter)])
            } else {
                None
            }),
    {
        match self.stakes.get(&make_pair_key(idea_id, supporter)) {
            Some(pos) => Some(*pos),
            None => None,
        }
    }

    pub fn vote(&self, idea_id: u64, voter: Principal) -> (r: Option<VoteRecord>)
        ensures
            r == (if self@.votes.contains_key(pair_key(idea_id, voter)) {
                Some(self@.votes[pair_key(idea_id, voter)])
            } else {
                None
            }),
    {
        match self.votes.get(&make_pair_key(idea_id, voter)) {
            Some(v) => Some(*v),
            None => None,
        }
    }

    pub fn escrow(&self, idea_id: u64) -> (r: Option<EscrowState>)
        ensures
            r == (if self@.escrows.contains_key(idea_id) {
                Some(self@.escrows[idea_id])
            } else {
                None
            }),
    {
        match self.escrows.get(&idea_id) {
            Some(e) => Some(*e),
            None => None,
        }
    }

    pub fn reputation_profile(&self, wallet: Principal) -> (r: ReputationProfile)
        ensures
            r == reputation_of(self@.reputations, wallet),
    {
        self.reputation(wallet)
    }

    pub fn wallet_balance(&self, owner: Principal) -> (r: u64)
        ensures
            r == balance(self@.tokens, wallet_account(owner)),
    {
        self.token_balance(make_pair_key(0, owner))
    }

    pub fn pool_balance(&self, idea_id: u64) -> (r: u64)
        ensures
            r == balance(self@.tokens, pool_account(idea_id)),
    {
        self.token_balance(make_pair_key(1, idea_id))
    }

    pub fn escrow_balance(&self, idea_id: u64) -> (r: u64)
        ensures
            r == balance(self@.tokens, escrow_account(idea_id)),
    {
        self.token_balance(make_pair_key(2, idea_id))
    }

    pub fn currency_of(&self, owner: Principal) -> (r: u64)
        ensures
            r == currency_of(self@.currency, owner),
    {
        self.currency_balance(owner)
    }
}

} // verus!
