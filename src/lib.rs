//! A crowd-funded idea marketplace: supporters pool funds behind an idea, builders
//! bid with milestone schedules, a committee runs a timed vote, and the winning
//! bid's funds move into an escrow that pays out one approved milestone at a time.
pub mod types;
pub mod model;
pub mod market;
pub mod laws;
pub mod prize_pool;
pub mod bounty;
