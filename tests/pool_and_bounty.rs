use gimme_idea::bounty::{self, cancel_bounty, initialize_bounty, release_bounty, Bounty};
use gimme_idea::prize_pool::{
    claim_prize, create_pool, emergency_withdraw, set_winners, ErrorCode, PrizePool,
};

const OWNER: u64 = 1;
const W1: u64 = 11;
const W2: u64 = 12;
const W3: u64 = 13;
const NOW: i64 = 1_000;

fn pool() -> PrizePool {
    create_pool(OWNER, b"post-1".to_vec(), 9, 1000, vec![50, 30, 20], NOW + 100, NOW, 254).unwrap()
}

fn ended_pool_with_winners() -> PrizePool {
    let mut p = pool();
    set_winners(&mut p, OWNER, vec![W1, W2, W3], NOW + 100).unwrap();
    p
}

#[test]
fn create_pool_sets_every_field() {
    let p = pool();
    assert_eq!(p.owner, OWNER);
    assert_eq!(p.post_id, b"post-1".to_vec());
    assert_eq!(p.usdc_mint, 9);
    assert_eq!(p.total_amount, 1000);
    assert_eq!(p.winners_count, 3);
    assert_eq!(p.distribution, vec![50, 30, 20]);
    assert!(p.winners.is_empty() && p.claimed.is_empty());
    assert_eq!(p.total_claimed, 0);
    assert_eq!(p.ends_at, NOW + 100);
    assert!(!p.distributed);
    assert_eq!(p.bump, 254);
    assert!(!p.all_winners_set());
}

#[test]
fn create_pool_errors_in_order() {
    let long = vec![b'a'; 65];
    assert_eq!(
        create_pool(OWNER, long, 9, 0, vec![], NOW, NOW, 0).err(),
        Some(ErrorCode::PostIdTooLong)
    );
    assert!(create_pool(OWNER, vec![b'a'; 64], 9, 1, vec![100], NOW + 1, NOW, 0).is_ok());
    assert_eq!(
        create_pool(OWNER, vec![], 9, 0, vec![], NOW, NOW, 0).err(),
        Some(ErrorCode::InvalidWinnersCount)
    );
    assert_eq!(
        create_pool(OWNER, vec![], 9, 0, vec![10; 11], NOW, NOW, 0).err(),
        Some(ErrorCode::InvalidWinnersCount)
    );
    assert_eq!(
        create_pool(OWNER, vec![], 9, 0, vec![50, 40], NOW, NOW, 0).err(),
        Some(ErrorCode::DistributionNotHundred)
    );
    assert_eq!(
        create_pool(OWNER, vec![], 9, 0, vec![200, 156], NOW, NOW, 0).err(),
        Some(ErrorCode::DistributionNotHundred)
    );
    assert_eq!(
        create_pool(OWNER, vec![], 9, 0, vec![100, 0], NOW, NOW, 0).err(),
        Some(ErrorCode::InvalidDistribution)
    );
    assert_eq!(
        create_pool(OWNER, vec![], 9, 0, vec![100], NOW, NOW, 0).err(),
        Some(ErrorCode::InsufficientFunds)
    );
    assert_eq!(
        create_pool(OWNER, vec![], 9, 5, vec![100], NOW, NOW, 0).err(),
        Some(ErrorCode::PoolEnded)
    );
}

#[test]
fn prize_shares_round_down() {
    let p = pool();
    assert_eq!(p.calculate_prize(0), Ok(500));
    assert_eq!(p.calculate_prize(1), Ok(300));
    assert_eq!(p.calculate_prize(2), Ok(200));
    assert_eq!(p.calculate_prize(3), Err(ErrorCode::InvalidRank));
    let q = create_pool(OWNER, vec![], 9, 999, vec![33, 67], NOW + 1, NOW, 0).unwrap();
    assert_eq!(q.calculate_prize(0), Ok(329));
    assert_eq!(q.calculate_prize(1), Ok(669));
    let big = create_pool(OWNER, vec![], 9, u64::MAX, vec![100], NOW + 1, NOW, 0).unwrap();
    assert_eq!(big.calculate_prize(0), Ok(u64::MAX));
}

#[test]
fn pool_end_time() {
    let p = pool();
    assert!(!p.has_ended(NOW + 99));
    assert!(p.has_ended(NOW + 100));
}

#[test]
fn set_winners_rules() {
    let mut p = pool();
    assert_eq!(set_winners(&mut p, W1, vec![W1, W2, W3], NOW + 100), Err(ErrorCode::Unauthorized));
    assert_eq!(set_winners(&mut p, OWNER, vec![W1, W2, W3], NOW + 99), Err(ErrorCode::PoolNotEnded));
    assert_eq!(set_winners(&mut p, OWNER, vec![W1, W2], NOW + 100), Err(ErrorCode::WinnersLengthMismatch));
    assert_eq!(set_winners(&mut p, OWNER, vec![W1, 0, W3], NOW + 100), Err(ErrorCode::InvalidWinner));
    assert!(!p.distributed);
    assert_eq!(set_winners(&mut p, OWNER, vec![W1, W2, W3], NOW + 100), Ok(()));
    assert_eq!(p.winners, vec![W1, W2, W3]);
    assert_eq!(p.claimed, vec![false, false, false]);
    assert!(p.distributed && p.all_winners_set());
}

#[test]
fn claim_prize_flow() {
    let mut fresh = pool();
    assert_eq!(claim_prize(&mut fresh, W1), Err(ErrorCode::WinnersNotSet));
    let mut p = ended_pool_with_winners();
    assert_eq!(claim_prize(&mut p, 99), Err(ErrorCode::InvalidWinner));
    assert_eq!(claim_prize(&mut p, W2), Ok(300));
    assert!(p.has_claimed(1));
    assert!(!p.has_claimed(0));
    assert!(!p.has_claimed(7));
    assert_eq!(p.total_claimed, 300);
    assert_eq!(claim_prize(&mut p, W2), Err(ErrorCode::AlreadyClaimed));
    assert_eq!(claim_prize(&mut p, W1), Ok(500));
    assert!(!p.all_claimed());
    assert_eq!(claim_prize(&mut p, W3), Ok(200));
    assert!(p.all_claimed());
    assert_eq!(p.total_claimed, 1000);
}

#[test]
fn repeated_winner_claims_first_rank() {
    let mut p = pool();
    set_winners(&mut p, OWNER, vec![W1, W1, W3], NOW + 100).unwrap();
    assert_eq!(claim_prize(&mut p, W1), Ok(500));
    assert_eq!(claim_prize(&mut p, W1), Err(ErrorCode::AlreadyClaimed));
    assert_eq!(p.claimed, vec![true, false, false]);
}

#[test]
fn emergency_withdraw_rules() {
    let p = pool();
    assert_eq!(emergency_withdraw(&p, W1, 1000), Err(ErrorCode::Unauthorized));
    assert_eq!(emergency_withdraw(&p, OWNER, 1000), Ok(1000));
    let mut q = ended_pool_with_winners();
    assert_eq!(emergency_withdraw(&q, OWNER, 1000), Err(ErrorCode::AlreadyDistributed));
    claim_prize(&mut q, W1).unwrap();
    claim_prize(&mut q, W2).unwrap();
    claim_prize(&mut q, W3).unwrap();
    assert_eq!(emergency_withdraw(&q, OWNER, 0), Ok(0));
}

fn bounty_of(owner: u64) -> Bounty {
    initialize_bounty(owner, 5_000, b"project".to_vec(), 3)
}

#[test]
fn bounty_starts_unreleased() {
    let b = bounty_of(OWNER);
    assert_eq!(b.owner, OWNER);
    assert_eq!(b.amount, 5_000);
    assert_eq!(b.project_id, b"project".to_vec());
    assert!(!b.is_released);
    assert_eq!(b.recipient, None);
    assert_eq!(b.bump, 3);
}

#[test]
fn bounty_release_once() {
    let mut b = bounty_of(OWNER);
    assert_eq!(release_bounty(&mut b, W1, W2), Err(bounty::ErrorCode::Unauthorized));
    assert!(!b.is_released);
    assert_eq!(release_bounty(&mut b, OWNER, W2), Ok(5_000));
    assert!(b.is_released);
    assert_eq!(b.recipient, Some(W2));
    assert_eq!(release_bounty(&mut b, W1, W3), Err(bounty::ErrorCode::BountyAlreadyReleased));
    assert_eq!(cancel_bounty(&mut b, OWNER), Err(bounty::ErrorCode::BountyAlreadyReleased));
    assert_eq!(b.recipient, Some(W2));
}

#[test]
fn bounty_cancel() {
    let mut b = bounty_of(OWNER);
    assert_eq!(cancel_bounty(&mut b, W1), Err(bounty::ErrorCode::Unauthorized));
    assert_eq!(cancel_bounty(&mut b, OWNER), Ok(5_000));
    assert!(!b.is_released);
    assert_eq!(b.recipient, None);
}
