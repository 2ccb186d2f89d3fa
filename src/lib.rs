//! Bookkeeping for concert crowdfunding: per-artist campaigns with a donation window, an event
//! window and a goal, the donations each campaign has taken, and a follower graph between
//! accounts. Accounts are plain strings and times are plain `u64` timestamps.

pub mod campaign;
pub mod followers;
pub mod laws;
pub mod ledger;
pub mod registry;
