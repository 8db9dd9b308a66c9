use vstd::prelude::*;
use crate::types::Principal;

verus! {

/// Why a bounty operation is refused. A refused operation changes nothing.
#[derive(Debug, Clone, Copy, PartialEq, Eq, Structural)]
pub enum ErrorCode {
    BountyAlreadyReleased,
    Unauthorized,
    InvalidRecipient,
}

/// Funds a project owner locks for one contributor whose feedback is accepted.
pub struct Bounty {
    pub owner: Principal,
    pub amount: u64,
    pub project_id: Vec<u8>,
    pub is_released: bool,
    pub recipient: Option<Principal>,
    pub bump: u8,
}

/// Why a release or a cancellation is refused, if it is, checked in this order.
pub open spec fn bounty_error(bounty: &Bounty, signer: Principal) -> Option<ErrorCode> {
    if bounty.is_released {
        Some(ErrorCode::BountyAlreadyReleased)
    } else if signer != bounty.owner {
        Some(ErrorCode::Unauthorized)
    } else {
        None
    }
}

pub fn initialize_bounty(owner: Principal, bounty_amount: u64, project_id: Vec<u8>, bump: u8) -> (r:
    Bounty)
    ensures
        r.owner == owner,
        r.amount == bounty_amount,
        r.project_id == project_id,
        !r.is_released,
        r.recipient is None,
        r.bump == bump,
{
    Bounty { owner, amount: bounty_amount, project_id, is_released: false, recipient: None, bump }
}

/// The owner releases the bounty to a contributor. Returns the amount the caller
/// then moves from the escrow account to the recipient.
pub fn release_bounty(bounty: &mut Bounty, signer: Principal, recipient: Principal) -> (r: Result<
    u64,
    ErrorCode,
>)
    ensures
        match r {
            Ok(a) => {
                &&& bounty_error(old(bounty), signer) is None
                &&& a == old(bounty).amount
                &&& final(bounty).is_released
                &&& final(bounty).recipient == Some(recipient)
                &&& final(bounty).owner == old(bounty).owner
                &&& final(bounty).amount == old(bounty).amount
                &&& final(bounty).project_id == old(bounty).project_id
                &&& final(bounty).bump == old(bounty).bump
            },
            Err(e) => bounty_error(old(bounty), signer) == Some(e) && *final(bounty) == *old(bounty),
        },
{
    if bounty.is_released {
        return Err(ErrorCode::BountyAlreadyReleased);
    }
    if bounty.owner != signer {
        return Err(ErrorCode::Unauthorized);
    }
    bounty.is_released = true;
    bounty.recipient = Some(recipient);
    Ok(bounty.amount)
}

/// The owner takes back an unreleased bounty. Returns the amount the caller
/// then moves from the escrow account back to the owner; the record itself is
/// left as it is.
pub fn cancel_bounty(bounty: &mut Bounty, signer: Principal) -> (r: Result<u64, ErrorCode>)
    ensures
        match r {
            Ok(a) => bounty_error(old(bounty), signer) is None && a == old(bounty).amount,
            Err(e) => bounty_error(old(bounty), signer) == Some(e),
        },
        *final(bounty) == *old(bounty),
{
    if bounty.is_released {
        return Err(ErrorCode::BountyAlreadyReleased);
    }
    if bounty.owner != signer {
        return Err(ErrorCode::Unauthorized);
    }
    Ok(bounty.amount)
}

} // verus!
