use vstd::prelude::*;
use crate::model::{
    all_approved, balance, escrow_account, lemma_position_within_total, pair_key, pool_account,
    stake_total, wallet_account, MarketView,
};
use crate::types::{
    idea_rank, milestone_rank, milestone_step, milestone_sum, EscrowStatus, IdeaStatus, MarketError,
    MilestoneStatus, Principal, ProposalStatus,
};

verus! {

/// Every proposal in a well-formed ledger, accepted ones included, has a
/// schedule whose amounts add up exactly to its requested total.
pub proof fn schedule_matches_total(m: MarketView, proposal_id: u64)
    requires
        m.wf(),
        m.proposals.contains_key(proposal_id),
    ensures
        milestone_sum(m.proposals[proposal_id].milestones@)
            == m.proposals[proposal_id].requested_total,
{
}

/// An escrow never releases more than its proposal's requested total.
pub proof fn released_within_total(m: MarketView, idea_id: u64)
    requires
        m.wf(),
        m.escrows.contains_key(idea_id),
    ensures
        m.proposals.contains_key(m.escrows[idea_id].proposal_id),
        0 <= m.escrows[idea_id].released_amount
            <= m.proposals[m.escrows[idea_id].proposal_id].requested_total,
{
    let ms = m.proposals[m.escrows[idea_id].proposal_id].milestones@;
    crate::model::lemma_approved_le_total(ms);
}

/// A successful release raises the released total by exactly the amount of the
/// approved milestone, which is above zero.
pub proof fn release_adds_one_milestone(
    s: MarketView,
    t: MarketView,
    caller: Principal,
    idea_id: u64,
    proposal_id: u64,
    index: usize,
)
    requires
        s.wf(),
        s.approve_error(caller, idea_id, proposal_id, index) is None,
        s.approve_done(t, idea_id, proposal_id, index),
    ensures
        t.escrows[idea_id].released_amount == s.escrows[idea_id].released_amount
            + s.proposals[proposal_id].milestones@[index as int].amount,
        t.escrows[idea_id].released_amount > s.escrows[idea_id].released_amount,
{
    let ms = s.proposals[proposal_id].milestones@;
    let approved = crate::types::Milestone { status: MilestoneStatus::Approved, ..ms[index as int] };
    crate::model::lemma_approved_sum_update(ms, index as int, approved);
    crate::model::lemma_milestone_sum_update(ms, index as int, approved);
    crate::model::lemma_approved_le_total(ms.update(index as int, approved));
}

/// Once a voter has voted on an idea, every further vote of that voter on that
/// idea is refused, whatever the proposal and the time, and the first record stays.
pub proof fn second_vote_fails(
    s: MarketView,
    caller: Principal,
    idea_id: u64,
    proposal_id: u64,
    now: i64,
    other_proposal: u64,
    later: i64,
)
    requires
        s.cast_vote_error(caller, idea_id, proposal_id, now) is None,
    ensures
        s.cast_vote_result(caller, idea_id, proposal_id).cast_vote_error(
            caller,
            idea_id,
            other_proposal,
            later,
        ) is Some,
        s.cast_vote_result(caller, idea_id, proposal_id).votes[crate::model::pair_key(
            idea_id,
            caller,
        )].proposal_id == proposal_id,
{
}

/// Voting is refused after the window closes, and finalization before it does.
pub proof fn vote_window_is_respected(
    s: MarketView,
    caller: Principal,
    idea_id: u64,
    proposal_id: u64,
    now: i64,
)
    requires
        s.ideas.contains_key(idea_id),
    ensures
        now > s.ideas[idea_id].vote_end_ts ==> s.cast_vote_error(caller, idea_id, proposal_id, now)
            is Some,
        now <= s.ideas[idea_id].vote_end_ts ==> s.finalize_winner_error(
            caller,
            idea_id,
            proposal_id,
            now,
        ) is Some,
        now > s.ideas[idea_id].vote_end_ts && s.ideas[idea_id].status == IdeaStatus::Voting
            ==> s.cast_vote_error(caller, idea_id, proposal_id, now) == Some(
            MarketError::VoteEnded,
        ),
        now <= s.ideas[idea_id].vote_end_ts && s.ideas[idea_id].status == IdeaStatus::Voting
            && s.authorizes(caller) ==> s.finalize_winner_error(caller, idea_id, proposal_id, now)
            == Some(MarketError::VoteNotEnded),
{
}

/// Over any run of operations, an idea keeps existing and its status never moves
/// back along Open, Voting, Building, Completed or Cancelled.
pub proof fn idea_statuses_never_regress(a: MarketView, b: MarketView, c: MarketView, id: u64)
    requires
        a.ideas_advance(b),
        b.ideas_advance(c),
        a.ideas.contains_key(id),
    ensures
        c.ideas.contains_key(id),
        idea_rank(a.ideas[id].status) <= idea_rank(c.ideas[id].status),
{
    assert(b.ideas.contains_key(id));
}

/// Over any run of operations, a milestone keeps its place in its schedule and
/// its status never moves back along Pending, SubmittedProof, Approved.
pub proof fn milestone_statuses_never_regress(
    a: MarketView,
    b: MarketView,
    c: MarketView,
    pid: u64,
    i: int,
)
    requires
        a.milestones_advance(b),
        b.milestones_advance(c),
        a.proposals.contains_key(pid),
        0 <= i < a.proposals[pid].milestones@.len(),
    ensures
        c.proposals.contains_key(pid),
        c.proposals[pid].milestones@.len() == a.proposals[pid].milestones@.len(),
        milestone_rank(a.proposals[pid].milestones@[i].status) <= milestone_rank(
            c.proposals[pid].milestones@[i].status,
        ),
{
    assert(b.proposals.contains_key(pid));
    assert(milestone_step(
        a.proposals[pid].milestones@[i].status,
        b.proposals[pid].milestones@[i].status,
    ));
    assert(milestone_step(
        b.proposals[pid].milestones@[i].status,
        c.proposals[pid].milestones@[i].status,
    ));
}

/// Approving a milestone that is still pending is refused; once the caller,
/// the escrow and the proposal are all in order, the refusal is a state mismatch.
pub proof fn approving_pending_milestone_fails(
    s: MarketView,
    caller: Principal,
    idea_id: u64,
    proposal_id: u64,
    index: usize,
)
    requires
        s.proposals.contains_key(proposal_id),
        index < s.proposals[proposal_id].milestones@.len(),
        s.proposals[proposal_id].milestones@[index as int].status == MilestoneStatus::Pending,
    ensures
        s.approve_error(caller, idea_id, proposal_id, index) is Some,
        s.authorizes(caller) && s.escrows.contains_key(idea_id) && s.escrows[idea_id].status
            == EscrowStatus::Active && s.escrows[idea_id].proposal_id == proposal_id
            && s.proposals[proposal_id].status == ProposalStatus::Accepted ==> s.approve_error(
            caller,
            idea_id,
            proposal_id,
            index,
        ) == Some(MarketError::InvalidMilestoneStatus),
{
}

/// A finished escrow has every milestone of its proposal approved.
pub proof fn finished_escrow_is_fully_approved(m: MarketView, idea_id: u64)
    requires
        m.wf(),
        m.escrows.contains_key(idea_id),
        m.escrows[idea_id].status == EscrowStatus::Finished,
    ensures
        all_approved(m.proposals[m.escrows[idea_id].proposal_id].milestones@),
{
}

/// While an idea takes stakes or refunds, its pool vault holds exactly its
/// total staked.
pub proof fn pool_holds_total_staked(m: MarketView, idea_id: u64)
    requires
        m.wf(),
        m.ideas.contains_key(idea_id),
        m.ideas[idea_id].status == IdeaStatus::Open || m.ideas[idea_id].status == IdeaStatus::Voting,
    ensures
        balance(m.tokens, pool_account(idea_id)) == m.ideas[idea_id].total_staked,
{
}

/// An escrow's vault and the amount it has released always add up to the
/// proposal's requested total: nothing is created or lost in custody.
pub proof fn escrow_conserves_funds(m: MarketView, idea_id: u64)
    requires
        m.wf(),
        m.escrows.contains_key(idea_id),
    ensures
        balance(m.tokens, escrow_account(idea_id)) + m.escrows[idea_id].released_amount
            == m.proposals[m.escrows[idea_id].proposal_id].requested_total,
{
}

/// An idea's total staked is the sum of its stake positions.
pub proof fn total_staked_is_sum_of_positions(m: MarketView, idea_id: u64)
    requires
        m.wf(),
        m.ideas.contains_key(idea_id),
    ensures
        m.ideas[idea_id].total_staked == stake_total(m.stakes, idea_id),
{
}

/// No stake position holds more than its idea's total staked, so a refund that
/// the position covers never takes the idea's total below zero.
pub proof fn position_within_total_staked(m: MarketView, idea_id: u64, supporter: Principal)
    requires
        m.wf(),
        m.ideas.contains_key(idea_id),
        m.stakes.contains_key(pair_key(idea_id, supporter)),
    ensures
        m.stakes[pair_key(idea_id, supporter)].amount <= m.ideas[idea_id].total_staked,
        forall|caller: Principal, amount: u64|
            m.refund_stake_error(caller, idea_id, supporter, amount) != Some(
                MarketError::MathOverflow,
            ) || balance(m.tokens, wallet_account(supporter)) + amount > u64::MAX,
{
    let k = pair_key(idea_id, supporter);
    lemma_position_within_total(m.stakes, k);
}

} // verus!
