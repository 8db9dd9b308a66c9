use vstd::prelude::*;

verus! {

/// Identity of a principal (a wallet).
pub type Principal = u64;

/// Largest number of committee members besides the administrator.
pub const MAX_COMMITTEE: usize = 5;

/// Largest length of a metadata or proof pointer, in bytes.
pub const MAX_URI_LEN: usize = 200;

/// Largest number of milestones in one proposal.
pub const MAX_MILESTONES: usize = 3;

/// Every way an operation can be refused. A refused operation changes nothing.
#[derive(Debug, Clone, Copy, PartialEq, Eq, Structural)]
pub enum MarketError {
    /// The caller is not the principal the operation needs.
    Unauthorized,
    /// A committee must have one to five members.
    InvalidCommittee,
    /// The configuration exists already.
    AlreadyInitialized,
    /// No configuration exists yet.
    NotInitialized,
    /// A metadata or proof pointer is longer than 200 bytes.
    UriTooLong,
    /// An idea with this id exists already.
    IdeaExists,
    IdeaNotFound,
    /// The idea is not in the status the operation needs.
    InvalidIdeaStatus,
    /// A checked addition or subtraction left the range of its type.
    MathOverflow,
    /// An amount of zero.
    InvalidAmount,
    /// The source account holds less than the amount to move.
    InsufficientFunds,
    StakeNotFound,
    /// The refund asks for more than the position holds.
    InsufficientStake,
    /// A proposal with this id exists already.
    ProposalExists,
    ProposalNotFound,
    /// The schedule has no milestone, more than three, or one of amount zero.
    InvalidMilestones,
    /// The milestone amounts do not add up to the requested total.
    MilestoneSumMismatch,
    /// The vote window has closed.
    VoteEnded,
    /// The vote window is still open.
    VoteNotEnded,
    /// The proposal belongs to another idea.
    ProposalIdeaMismatch,
    /// The voter has voted on this idea already.
    AlreadyVoted,
    /// The idea has an escrow already.
    EscrowExists,
    EscrowNotFound,
    /// The proposal is not in the status the operation needs.
    InvalidProposalStatus,
    /// The milestone index is past the end of the schedule.
    InvalidMilestoneIndex,
    /// The milestone is not in the status the operation needs.
    InvalidMilestoneStatus,
    /// The escrow holds the funds of another proposal.
    EscrowProposalMismatch,
    /// The escrow is no longer active.
    InvalidEscrowStatus,
}

/// Lifecycle of an idea: Open takes stakes and proposals, Voting takes votes,
/// Building pays out the winner's milestones.
#[derive(Debug, Clone, Copy, PartialEq, Eq, Structural)]
pub enum IdeaStatus {
    Open,
    Voting,
    Building,
    Completed,
    Cancelled,
}

/// A position becomes Refunded when all of it has been given back.
#[derive(Debug, Clone, Copy, PartialEq, Eq, Structural)]
pub enum StakeStatus {
    Active,
    Refunded,
}

/// Lifecycle of a proposal: Submitted, then Accepted when it wins, then
/// Completed when every milestone is approved.
#[derive(Debug, Clone, Copy, PartialEq, Eq, Structural)]
pub enum ProposalStatus {
    Submitted,
    Accepted,
    Rejected,
    Completed,
    Cancelled,
}

/// Lifecycle of a milestone: Pending, SubmittedProof once the builder hands in
/// a proof, Approved once the committee pays it out.
#[derive(Debug, Clone, Copy, PartialEq, Eq, Structural)]
pub enum MilestoneStatus {
    Pending,
    SubmittedProof,
    Approved,
    Failed,
}

/// An escrow is Active until its last milestone is paid, then Finished.
#[derive(Debug, Clone, Copy, PartialEq, Eq, Structural)]
pub enum EscrowStatus {
    Active,
    Paused,
    Finished,
    Cancelled,
}

/// Position of an idea status along its lifecycle; a status never moves to a lower rank.
pub open spec fn idea_rank(s: IdeaStatus) -> int {
    match s {
        IdeaStatus::Open => 0,
        IdeaStatus::Voting => 1,
        IdeaStatus::Building => 2,
        IdeaStatus::Completed => 3,
        IdeaStatus::Cancelled => 3,
    }
}

/// Whether one operation may take an idea from status `a` to status `b`:
/// it stays, or it moves to the next stage of Open, Voting, Building, and then
/// Completed or Cancelled.
pub open spec fn idea_step(a: IdeaStatus, b: IdeaStatus) -> bool {
    ||| a == b
    ||| a == IdeaStatus::Open && b == IdeaStatus::Voting
    ||| a == IdeaStatus::Voting && b == IdeaStatus::Building
    ||| a == IdeaStatus::Building && (b == IdeaStatus::Completed || b == IdeaStatus::Cancelled)
}

/// Whether one operation may take a proposal from status `a` to status `b`:
/// it stays, or a submitted proposal is accepted, rejected or cancelled, or an
/// accepted one is completed.
pub open spec fn proposal_step(a: ProposalStatus, b: ProposalStatus) -> bool {
    ||| a == b
    ||| a == ProposalStatus::Submitted && (b == ProposalStatus::Accepted || b
        == ProposalStatus::Rejected || b == ProposalStatus::Cancelled)
    ||| a == ProposalStatus::Accepted && b == ProposalStatus::Completed
}

/// Position of a milestone status along its lifecycle.
pub open spec fn milestone_rank(s: MilestoneStatus) -> int {
    match s {
        MilestoneStatus::Pending => 0,
        MilestoneStatus::SubmittedProof => 1,
        MilestoneStatus::Approved => 2,
        MilestoneStatus::Failed => 2,
    }
}

/// Whether one operation may take a milestone from status `a` to status `b`:
/// it stays, or it moves from Pending to SubmittedProof or from SubmittedProof
/// to Approved.
pub open spec fn milestone_step(a: MilestoneStatus, b: MilestoneStatus) -> bool {
    ||| a == b
    ||| a == MilestoneStatus::Pending && b == MilestoneStatus::SubmittedProof
    ||| a == MilestoneStatus::SubmittedProof && b == MilestoneStatus::Approved
}

/// Process-wide policy.
pub struct Config {
    pub admin: Principal,
    pub accepted_asset: u64,
    pub proposal_fee: u64,
    pub vote_duration: i64,
    pub committee: Vec<Principal>,
}

impl Config {
    /// A principal may advance lifecycle-gated operations when it is the
    /// administrator or a committee member.
    pub open spec fn authorizes(&self, p: Principal) -> bool {
        p == self.admin || self.committee@.contains(p)
    }

    pub fn is_committee_authorized(&self, p: Principal) -> (r: bool)
        ensures
            r == self.authorizes(p),
    {
        if p == self.admin {
            return true;
        }
        let mut i: usize = 0;
        while i < self.committee.len()
            invariant
                i <= self.committee@.len(),
                forall|j: int| 0 <= j < i ==> self.committee@[j] != p,
            decreases self.committee@.len() - i,
        {
            if self.committee[i] == p {
                return true;
            }
            i = i + 1;
        }
        false
    }
}

/// A funding campaign.
pub struct Idea {
    pub id: u64,
    pub creator: Principal,
    pub metadata: Vec<u8>,
    pub accepted_asset: u64,
    pub status: IdeaStatus,
    pub total_staked: u64,
    pub vote_end_ts: i64,
    pub winning_proposal: Option<u64>,
    pub pool_vault: u128,
}

/// What one supporter has put into one idea.
#[derive(Debug, Clone, Copy, PartialEq, Eq, Structural)]
pub struct StakePosition {
    pub idea_id: u64,
    pub supporter: Principal,
    pub amount: u64,
    pub status: StakeStatus,
}

/// The payout schedule entry a builder asks for.
#[derive(Debug, Clone, Copy, PartialEq, Eq, Structural)]
pub struct MilestonePlan {
    pub amount: u64,
    pub deadline: i64,
}

/// One deliverable of a proposal.
pub struct Milestone {
    pub amount: u64,
    pub deadline: i64,
    pub proof: Vec<u8>,
    pub status: MilestoneStatus,
}

/// A builder's bid against an idea.
pub struct Proposal {
    pub id: u64,
    pub idea_id: u64,
    pub builder: Principal,
    pub metadata: Vec<u8>,
    pub requested_total: u64,
    pub status: ProposalStatus,
    pub vote_count: u64,
    pub milestones: Vec<Milestone>,
}

/// The single vote of one voter on one idea.
#[derive(Debug, Clone, Copy, PartialEq, Eq, Structural)]
pub struct VoteRecord {
    pub idea_id: u64,
    pub voter: Principal,
    pub proposal_id: u64,
}

/// Custody of the winning proposal's funds.
#[derive(Debug, Clone, Copy, PartialEq, Eq, Structural)]
pub struct EscrowState {
    pub idea_id: u64,
    pub proposal_id: u64,
    pub builder: Principal,
    pub vault: u128,
    pub released_amount: u64,
    pub status: EscrowStatus,
}

/// Participation counters of one wallet; they never decrease.
#[derive(Debug, Clone, Copy, PartialEq, Eq, Structural)]
pub struct ReputationProfile {
    pub wallet: Principal,
    pub proposals_won: u64,
    pub milestones_completed: u64,
    pub support_count: u64,
    pub support_amount_total: u64,
}

/// Sum of the amounts of a milestone schedule.
pub open spec fn plan_sum(ms: Seq<MilestonePlan>) -> int
    decreases ms.len(),
{
    if ms.len() == 0 {
        0
    } else {
        plan_sum(ms.drop_last()) + ms.last().amount
    }
}

/// Sum of the amounts of a proposal's milestones.
pub open spec fn milestone_sum(ms: Seq<Milestone>) -> int
    decreases ms.len(),
{
    if ms.len() == 0 {
        0
    } else {
        milestone_sum(ms.drop_last()) + ms.last().amount
    }
}

/// Sum of the amounts of the approved milestones.
pub open spec fn approved_sum(ms: Seq<Milestone>) -> int
    decreases ms.len(),
{
    if ms.len() == 0 {
        0
    } else {
        approved_sum(ms.drop_last()) + if ms.last().status == MilestoneStatus::Approved {
            ms.last().amount as int
        } else {
            0
        }
    }
}

} // verus!
