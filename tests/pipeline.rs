use gimme_idea::market::{make_pair_key, Market};
use gimme_idea::types::{
    EscrowStatus, IdeaStatus, MarketError, MilestonePlan, MilestoneStatus, ProposalStatus,
    StakeStatus,
};

const ADMIN: u64 = 1;
const MEMBER: u64 = 2;
const CREATOR: u64 = 5;
const ALICE: u64 = 10;
const BOB: u64 = 11;
const BUILDER: u64 = 20;
const OTHER_BUILDER: u64 = 21;
const VOTER: u64 = 30;
const ASSET: u64 = 77;
const T0: i64 = 1_700_000_000;
const DURATION: i64 = 3600;

fn plans(amounts: &[u64]) -> Vec<MilestonePlan> {
    amounts
        .iter()
        .enumerate()
        .map(|(i, a)| MilestonePlan { amount: *a, deadline: T0 + 86_400 * (i as i64 + 1) })
        .collect()
}

fn configured(fee: u64) -> Market {
    let mut m = Market::new();
    m.initialize_config(ADMIN, ASSET, fee, DURATION).unwrap();
    m
}

/// An open idea with id 1 and 1000 units staked by two supporters.
fn staked_idea() -> Market {
    let mut m = configured(0);
    m.create_idea(CREATOR, 1, vec![b'u'; 200]).unwrap();
    m.deposit(ALICE, 600).unwrap();
    m.deposit(BOB, 400).unwrap();
    m.stake(ALICE, 1, 600).unwrap();
    m.stake(BOB, 1, 400).unwrap();
    m
}

/// Idea 1 with proposal 10 of [300, 300, 400], voting opened at T0.
fn voting_idea() -> Market {
    let mut m = staked_idea();
    m.submit_proposal(BUILDER, 1, 10, 1000, vec![b'p'; 10], plans(&[300, 300, 400])).unwrap();
    m.start_voting(ADMIN, 1, T0).unwrap();
    m
}

/// Idea 1 with proposal 10 accepted and funds in escrow.
fn building_idea() -> Market {
    let mut m = voting_idea();
    m.cast_vote(VOTER, 1, 10, T0 + 10).unwrap();
    m.finalize_winner(ADMIN, 1, 10, T0 + DURATION + 1).unwrap();
    m
}

#[test]
fn scenario_two_supporters_stake() {
    let m = staked_idea();
    let idea = m.idea(1).unwrap();
    assert_eq!(idea.total_staked, 1000);
    assert_eq!(idea.status, IdeaStatus::Open);
    assert_eq!(idea.metadata.len(), 200);
    assert_eq!(m.pool_balance(1), 1000);
    assert_eq!(m.wallet_balance(ALICE), 0);
    assert_eq!(m.stake_position(1, ALICE).unwrap().amount, 600);
    assert_eq!(m.stake_position(1, BOB).unwrap().amount, 400);
}

#[test]
fn scenario_proposal_sum_checked() {
    let mut m = staked_idea();
    assert_eq!(
        m.submit_proposal(BUILDER, 1, 10, 1000, vec![], plans(&[300, 300, 400])),
        Ok(())
    );
    assert_eq!(
        m.submit_proposal(BUILDER, 1, 11, 900, vec![], plans(&[300, 300, 400])),
        Err(MarketError::MilestoneSumMismatch)
    );
    assert!(m.proposal(11).is_none());
    let p = m.proposal(10).unwrap();
    assert_eq!(p.requested_total, 1000);
    assert_eq!(p.status, ProposalStatus::Submitted);
    assert_eq!(p.milestones.len(), 3);
    assert!(p.milestones.iter().all(|ms| ms.status == MilestoneStatus::Pending && ms.proof.is_empty()));
}

#[test]
fn scenario_vote_then_finalize() {
    let mut m = voting_idea();
    assert_eq!(m.idea(1).unwrap().vote_end_ts, T0 + 3600);
    assert_eq!(m.cast_vote(VOTER, 1, 10, T0 + 10), Ok(()));
    assert_eq!(m.finalize_winner(ADMIN, 1, 10, T0 + 10), Err(MarketError::VoteNotEnded));
    assert_eq!(m.finalize_winner(ADMIN, 1, 10, T0 + 3601), Ok(()));
    let e = m.escrow(1).unwrap();
    assert_eq!(e.released_amount, 0);
    assert_eq!(e.status, EscrowStatus::Active);
    assert_eq!(e.builder, BUILDER);
    assert_eq!(m.escrow_balance(1), 1000);
    assert_eq!(m.pool_balance(1), 0);
    let idea = m.idea(1).unwrap();
    assert_eq!(idea.status, IdeaStatus::Building);
    assert_eq!(idea.winning_proposal, Some(10));
    assert_eq!(m.proposal(10).unwrap().status, ProposalStatus::Accepted);
    assert_eq!(m.proposal(10).unwrap().vote_count, 1);
    assert_eq!(m.reputation_profile(BUILDER).proposals_won, 1);
}

#[test]
fn scenario_first_milestone_released() {
    let mut m = building_idea();
    assert_eq!(m.submit_milestone_proof(BUILDER, 10, 0, vec![b'q'; 20]), Ok(()));
    assert_eq!(m.proposal(10).unwrap().milestones[0].status, MilestoneStatus::SubmittedProof);
    assert_eq!(m.approve_and_release(ADMIN, 1, 10, 0), Ok(()));
    assert_eq!(m.escrow(1).unwrap().released_amount, 300);
    assert_eq!(m.proposal(10).unwrap().milestones[0].status, MilestoneStatus::Approved);
    assert_eq!(m.wallet_balance(BUILDER), 300);
    assert_eq!(m.escrow_balance(1), 700);
    assert_eq!(
        m.approve_and_release(ADMIN, 1, 10, 0),
        Err(MarketError::InvalidMilestoneStatus)
    );
    assert_eq!(m.escrow(1).unwrap().released_amount, 300);
    assert_eq!(m.reputation_profile(BUILDER).milestones_completed, 1);
}

#[test]
fn scenario_all_milestones_complete() {
    let mut m = building_idea();
    for i in 0..3usize {
        m.submit_milestone_proof(BUILDER, 10, i, vec![b'q'; 5]).unwrap();
        m.approve_and_release(ADMIN, 1, 10, i).unwrap();
        if i < 2 {
            assert_eq!(m.escrow(1).unwrap().status, EscrowStatus::Active);
        }
    }
    assert_eq!(m.proposal(10).unwrap().status, ProposalStatus::Completed);
    let e = m.escrow(1).unwrap();
    assert_eq!(e.status, EscrowStatus::Finished);
    assert_eq!(e.released_amount, 1000);
    assert_eq!(m.wallet_balance(BUILDER), 1000);
    assert_eq!(m.escrow_balance(1), 0);
    assert_eq!(
        m.approve_and_release(ADMIN, 1, 10, 2),
        Err(MarketError::InvalidEscrowStatus)
    );
}

#[test]
fn second_vote_is_refused() {
    let mut m = voting_idea();
    m.submit_proposal(OTHER_BUILDER, 1, 12, 5, vec![], plans(&[5])).unwrap_err();
    m.cast_vote(VOTER, 1, 10, T0 + 1).unwrap();
    assert_eq!(m.cast_vote(VOTER, 1, 10, T0 + 2), Err(MarketError::AlreadyVoted));
    assert_eq!(m.proposal(10).unwrap().vote_count, 1);
    assert_eq!(m.vote(1, VOTER).unwrap().proposal_id, 10);
}

#[test]
fn vote_after_window_is_refused() {
    let mut m = voting_idea();
    assert_eq!(m.cast_vote(VOTER, 1, 10, T0 + DURATION), Ok(()));
    assert_eq!(m.cast_vote(BOB, 1, 10, T0 + DURATION + 1), Err(MarketError::VoteEnded));
    assert!(m.vote(1, BOB).is_none());
}

#[test]
fn finalize_at_window_end_is_refused() {
    let mut m = voting_idea();
    assert_eq!(m.finalize_winner(ADMIN, 1, 10, T0 + DURATION), Err(MarketError::VoteNotEnded));
    assert_eq!(m.idea(1).unwrap().status, IdeaStatus::Voting);
}

#[test]
fn approving_pending_milestone_is_refused() {
    let mut m = building_idea();
    assert_eq!(
        m.approve_and_release(ADMIN, 1, 10, 1),
        Err(MarketError::InvalidMilestoneStatus)
    );
    assert_eq!(m.escrow(1).unwrap().released_amount, 0);
}

#[test]
fn config_initializes_once() {
    let mut m = configured(5);
    let c = m.config().unwrap();
    assert_eq!(c.admin, ADMIN);
    assert_eq!(c.committee, vec![ADMIN]);
    assert_eq!(c.proposal_fee, 5);
    assert_eq!(
        m.initialize_config(MEMBER, ASSET, 0, 10),
        Err(MarketError::AlreadyInitialized)
    );
    assert_eq!(m.config().unwrap().admin, ADMIN);
}

#[test]
fn committee_rules() {
    let mut fresh = Market::new();
    assert_eq!(fresh.set_committee(ADMIN, vec![MEMBER]), Err(MarketError::NotInitialized));
    let mut m = configured(0);
    assert_eq!(m.set_committee(MEMBER, vec![MEMBER]), Err(MarketError::Unauthorized));
    assert_eq!(m.set_committee(ADMIN, vec![]), Err(MarketError::InvalidCommittee));
    assert_eq!(
        m.set_committee(ADMIN, vec![2, 3, 4, 5, 6, 7]),
        Err(MarketError::InvalidCommittee)
    );
    assert_eq!(m.set_committee(ADMIN, vec![2, 3, 4, 5, 6]), Ok(()));
    assert_eq!(m.config().unwrap().committee, vec![2, 3, 4, 5, 6]);
    assert!(m.config().unwrap().is_committee_authorized(ADMIN));
    assert!(m.config().unwrap().is_committee_authorized(6));
    assert!(!m.config().unwrap().is_committee_authorized(ALICE));
}

#[test]
fn committee_member_runs_the_vote() {
    let mut m = staked_idea();
    m.submit_proposal(BUILDER, 1, 10, 1000, vec![], plans(&[1000])).unwrap();
    assert_eq!(m.start_voting(MEMBER, 1, T0), Err(MarketError::Unauthorized));
    m.set_committee(ADMIN, vec![MEMBER]).unwrap();
    assert_eq!(m.start_voting(MEMBER, 1, T0), Ok(()));
    assert_eq!(m.start_voting(MEMBER, 1, T0), Err(MarketError::InvalidIdeaStatus));
    assert_eq!(m.finalize_winner(ALICE, 1, 10, T0 + DURATION + 1), Err(MarketError::Unauthorized));
    assert_eq!(m.finalize_winner(MEMBER, 1, 10, T0 + DURATION + 1), Ok(()));
}

#[test]
fn start_voting_overflow() {
    let mut m = Market::new();
    m.initialize_config(ADMIN, ASSET, 0, i64::MAX).unwrap();
    m.create_idea(CREATOR, 1, vec![]).unwrap();
    assert_eq!(m.start_voting(ADMIN, 1, 1), Err(MarketError::MathOverflow));
    assert_eq!(m.start_voting(ADMIN, 2, 0), Err(MarketError::IdeaNotFound));
    assert_eq!(m.start_voting(ADMIN, 1, 0), Ok(()));
    assert_eq!(m.idea(1).unwrap().vote_end_ts, i64::MAX);
}

#[test]
fn create_idea_rules() {
    let mut fresh = Market::new();
    assert_eq!(fresh.create_idea(CREATOR, 1, vec![]), Err(MarketError::NotInitialized));
    let mut m = configured(0);
    assert_eq!(m.create_idea(CREATOR, 1, vec![0; 201]), Err(MarketError::UriTooLong));
    assert_eq!(m.create_idea(CREATOR, 1, vec![0; 200]), Ok(()));
    assert_eq!(m.create_idea(ALICE, 1, vec![]), Err(MarketError::IdeaExists));
    let idea = m.idea(1).unwrap();
    assert_eq!(idea.creator, CREATOR);
    assert_eq!(idea.accepted_asset, ASSET);
    assert_eq!(idea.total_staked, 0);
    assert_eq!(idea.winning_proposal, None);
    assert_eq!(m.pool_balance(1), 0);
}

#[test]
fn stake_rules() {
    let mut m = configured(0);
    assert_eq!(m.stake(ALICE, 1, 10), Err(MarketError::IdeaNotFound));
    m.create_idea(CREATOR, 1, vec![]).unwrap();
    assert_eq!(m.stake(ALICE, 1, 0), Err(MarketError::InvalidAmount));
    assert_eq!(m.stake(ALICE, 1, 10), Err(MarketError::InsufficientFunds));
    m.deposit(ALICE, 100).unwrap();
    m.stake(ALICE, 1, 30).unwrap();
    m.stake(ALICE, 1, 20).unwrap();
    let pos = m.stake_position(1, ALICE).unwrap();
    assert_eq!(pos.amount, 50);
    assert_eq!(pos.status, StakeStatus::Active);
    assert_eq!(m.wallet_balance(ALICE), 50);
    let rep = m.reputation_profile(ALICE);
    assert_eq!(rep.support_count, 2);
    assert_eq!(rep.support_amount_total, 50);
    m.start_voting(ADMIN, 1, T0).unwrap();
    assert_eq!(m.stake(ALICE, 1, 10), Err(MarketError::InvalidIdeaStatus));
}

#[test]
fn stake_overflow_is_refused() {
    let mut m = configured(0);
    m.create_idea(CREATOR, 1, vec![]).unwrap();
    m.deposit(ALICE, u64::MAX).unwrap();
    m.stake(ALICE, 1, u64::MAX - 1).unwrap();
    m.deposit(BOB, 2).unwrap();
    assert_eq!(m.stake(BOB, 1, 2), Err(MarketError::MathOverflow));
    assert_eq!(m.idea(1).unwrap().total_staked, u64::MAX - 1);
    assert_eq!(m.deposit(ALICE, u64::MAX), Err(MarketError::MathOverflow));
    assert_eq!(m.wallet_balance(ALICE), 1);
}

#[test]
fn refund_rules() {
    let mut m = staked_idea();
    assert_eq!(m.refund_stake(BOB, 1, ALICE, 10), Err(MarketError::Unauthorized));
    assert_eq!(m.refund_stake(VOTER, 1, VOTER, 10), Err(MarketError::StakeNotFound));
    assert_eq!(m.refund_stake(ALICE, 1, ALICE, 601), Err(MarketError::InsufficientStake));
    assert_eq!(m.refund_stake(ALICE, 2, ALICE, 1), Err(MarketError::IdeaNotFound));
    assert_eq!(m.refund_stake(ALICE, 1, ALICE, 100), Ok(()));
    assert_eq!(m.stake_position(1, ALICE).unwrap().status, StakeStatus::Active);
    assert_eq!(m.idea(1).unwrap().total_staked, 900);
    assert_eq!(m.wallet_balance(ALICE), 100);
    m.start_voting(ADMIN, 1, T0).unwrap();
    assert_eq!(m.refund_stake(ALICE, 1, ALICE, 500), Ok(()));
    let pos = m.stake_position(1, ALICE).unwrap();
    assert_eq!(pos.amount, 0);
    assert_eq!(pos.status, StakeStatus::Refunded);
    assert_eq!(m.pool_balance(1), 400);
}

#[test]
fn refund_after_finalization_is_refused() {
    let mut m = staked_idea();
    m.submit_proposal(BUILDER, 1, 10, 500, vec![], plans(&[500])).unwrap();
    m.start_voting(ADMIN, 1, T0).unwrap();
    m.finalize_winner(ADMIN, 1, 10, T0 + DURATION + 1).unwrap();
    assert_eq!(m.refund_stake(BOB, 1, BOB, 400), Err(MarketError::InvalidIdeaStatus));
    assert_eq!(m.pool_balance(1), 500);
    assert_eq!(m.escrow_balance(1), 500);
}

#[test]
fn proposal_schedule_rules() {
    let mut m = staked_idea();
    assert_eq!(m.submit_proposal(BUILDER, 2, 10, 1, vec![], plans(&[1])), Err(MarketError::IdeaNotFound));
    assert_eq!(m.submit_proposal(BUILDER, 1, 10, 0, vec![], plans(&[])), Err(MarketError::InvalidMilestones));
    assert_eq!(
        m.submit_proposal(BUILDER, 1, 10, 4, vec![], plans(&[1, 1, 1, 1])),
        Err(MarketError::InvalidMilestones)
    );
    assert_eq!(
        m.submit_proposal(BUILDER, 1, 10, 5, vec![], plans(&[5, 0])),
        Err(MarketError::InvalidMilestones)
    );
    assert_eq!(
        m.submit_proposal(BUILDER, 1, 10, 1, vec![], plans(&[u64::MAX, 2])),
        Err(MarketError::MathOverflow)
    );
    assert_eq!(
        m.submit_proposal(BUILDER, 1, 10, 1, vec![0; 201], plans(&[1])),
        Err(MarketError::UriTooLong)
    );
    assert_eq!(m.submit_proposal(BUILDER, 1, 10, u64::MAX, vec![], plans(&[u64::MAX - 1, 1])), Ok(()));
    assert_eq!(
        m.submit_proposal(OTHER_BUILDER, 1, 10, 1, vec![], plans(&[1])),
        Err(MarketError::ProposalExists)
    );
    m.start_voting(ADMIN, 1, T0).unwrap();
    assert_eq!(
        m.submit_proposal(OTHER_BUILDER, 1, 11, 1, vec![], plans(&[1])),
        Err(MarketError::InvalidIdeaStatus)
    );
}

#[test]
fn proposal_fee_goes_to_admin() {
    let mut m = configured(25);
    m.create_idea(CREATOR, 1, vec![]).unwrap();
    assert_eq!(
        m.submit_proposal(BUILDER, 1, 10, 7, vec![], plans(&[7])),
        Err(MarketError::InsufficientFunds)
    );
    m.deposit_currency(BUILDER, 30).unwrap();
    assert_eq!(m.submit_proposal(BUILDER, 1, 10, 7, vec![], plans(&[7])), Ok(()));
    assert_eq!(m.currency_of(BUILDER), 5);
    assert_eq!(m.currency_of(ADMIN), 25);
    assert_eq!(m.wallet_balance(ADMIN), 0);
}

#[test]
fn vote_target_rules() {
    let mut m = voting_idea();
    assert_eq!(m.cast_vote(VOTER, 1, 99, T0), Err(MarketError::ProposalNotFound));
    assert_eq!(m.cast_vote(VOTER, 2, 10, T0), Err(MarketError::IdeaNotFound));
    m.create_idea(CREATOR, 2, vec![]).unwrap();
    assert_eq!(m.cast_vote(VOTER, 2, 10, T0), Err(MarketError::InvalidIdeaStatus));
    m.start_voting(ADMIN, 2, T0).unwrap();
    assert_eq!(m.cast_vote(VOTER, 2, 10, T0), Err(MarketError::ProposalIdeaMismatch));
    assert_eq!(m.finalize_winner(ADMIN, 2, 10, T0 + DURATION + 1), Err(MarketError::ProposalIdeaMismatch));
    assert_eq!(m.finalize_winner(ADMIN, 1, 99, T0 + DURATION + 1), Err(MarketError::ProposalNotFound));
}

#[test]
fn finalize_needs_funds_and_runs_once() {
    let mut m = configured(0);
    m.create_idea(CREATOR, 1, vec![]).unwrap();
    m.submit_proposal(BUILDER, 1, 10, 50, vec![], plans(&[50])).unwrap();
    m.start_voting(ADMIN, 1, T0).unwrap();
    assert_eq!(m.finalize_winner(ADMIN, 1, 10, T0 + DURATION + 1), Err(MarketError::InsufficientFunds));
    assert!(m.escrow(1).is_none());
    let mut b = building_idea();
    assert_eq!(b.finalize_winner(ADMIN, 1, 10, T0 + DURATION + 2), Err(MarketError::InvalidIdeaStatus));
}

#[test]
fn proof_submission_rules() {
    let mut v = voting_idea();
    assert_eq!(v.submit_milestone_proof(BUILDER, 10, 0, vec![]), Err(MarketError::InvalidProposalStatus));
    let mut m = building_idea();
    assert_eq!(m.submit_milestone_proof(BUILDER, 99, 0, vec![]), Err(MarketError::ProposalNotFound));
    assert_eq!(m.submit_milestone_proof(ALICE, 10, 0, vec![]), Err(MarketError::Unauthorized));
    assert_eq!(m.submit_milestone_proof(BUILDER, 10, 3, vec![]), Err(MarketError::InvalidMilestoneIndex));
    assert_eq!(m.submit_milestone_proof(BUILDER, 10, 0, vec![1; 201]), Err(MarketError::UriTooLong));
    assert_eq!(m.submit_milestone_proof(BUILDER, 10, 0, vec![1, 2, 3]), Ok(()));
    assert_eq!(m.proposal(10).unwrap().milestones[0].proof, vec![1, 2, 3]);
    assert_eq!(m.submit_milestone_proof(BUILDER, 10, 0, vec![4]), Err(MarketError::InvalidMilestoneStatus));
}

#[test]
fn release_rules() {
    let mut m = building_idea();
    m.submit_milestone_proof(BUILDER, 10, 1, vec![]).unwrap();
    assert_eq!(m.approve_and_release(BUILDER, 1, 10, 1), Err(MarketError::Unauthorized));
    assert_eq!(m.approve_and_release(ADMIN, 2, 10, 1), Err(MarketError::EscrowNotFound));
    assert_eq!(m.approve_and_release(ADMIN, 1, 11, 1), Err(MarketError::EscrowProposalMismatch));
    assert_eq!(m.approve_and_release(ADMIN, 1, 10, 7), Err(MarketError::InvalidMilestoneIndex));
    assert_eq!(m.approve_and_release(ADMIN, 1, 10, 1), Ok(()));
    assert_eq!(m.escrow(1).unwrap().released_amount, 300);
    assert_eq!(m.proposal(10).unwrap().milestones[1].status, MilestoneStatus::Approved);
    assert_eq!(m.proposal(10).unwrap().milestones[0].status, MilestoneStatus::Pending);
    let mut fresh = Market::new();
    assert_eq!(fresh.approve_and_release(ADMIN, 1, 10, 0), Err(MarketError::NotInitialized));
}

#[test]
fn idea_status_never_goes_back() {
    let mut m = voting_idea();
    assert_eq!(m.idea(1).unwrap().status, IdeaStatus::Voting);
    assert_eq!(m.start_voting(ADMIN, 1, T0 + 5), Err(MarketError::InvalidIdeaStatus));
    m.finalize_winner(ADMIN, 1, 10, T0 + DURATION + 1).unwrap();
    assert_eq!(m.idea(1).unwrap().status, IdeaStatus::Building);
    assert_eq!(m.start_voting(ADMIN, 1, T0 + DURATION + 2), Err(MarketError::InvalidIdeaStatus));
    assert_eq!(m.cast_vote(VOTER, 1, 10, T0 + 1), Err(MarketError::InvalidIdeaStatus));
    m.deposit(ALICE, 5).unwrap();
    assert_eq!(m.stake(ALICE, 1, 5), Err(MarketError::InvalidIdeaStatus));
    assert_eq!(m.idea(1).unwrap().status, IdeaStatus::Building);
}

#[test]
fn escrow_vault_and_released_add_up() {
    let mut m = building_idea();
    let total = m.proposal(10).unwrap().requested_total;
    assert_eq!(m.escrow_balance(1) + m.escrow(1).unwrap().released_amount, total);
    for i in [2usize, 0, 1] {
        let before = m.escrow(1).unwrap().released_amount;
        m.submit_milestone_proof(BUILDER, 10, i, vec![]).unwrap();
        m.approve_and_release(MEMBER, 1, 10, i).unwrap_err();
        m.approve_and_release(ADMIN, 1, 10, i).unwrap();
        let after = m.escrow(1).unwrap().released_amount;
        assert_eq!(after, before + m.proposal(10).unwrap().milestones[i].amount);
        assert!(after <= total);
        assert_eq!(m.escrow_balance(1) + after, total);
    }
    assert_eq!(m.escrow(1).unwrap().status, EscrowStatus::Finished);
}

#[test]
fn pair_keys_are_distinct() {
    assert_eq!(make_pair_key(0, 7), 7);
    assert_eq!(make_pair_key(1, 7), (1u128 << 64) + 7);
    assert_ne!(make_pair_key(1, 2), make_pair_key(2, 1));
}
