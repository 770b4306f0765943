//! The claims of a vault on locked base tokens, and the accounts of the
//! vault around them.
//!
//! A vault takes base tokens and gives out vault tokens for them. Where it
//! has a lockup, vault tokens are not redeemed at once: the redeemer gets a
//! claim that matures when the lockup has passed. The claim store keeps the
//! claims in contract storage, by id and by owner.

pub mod claims;
pub mod config;
pub mod error;
pub mod execute;
pub mod fees;
pub mod helpers;
pub mod laws;
pub mod math;
pub mod model;
pub mod msg;
pub mod pages;
pub mod state;
pub mod storage;
pub mod test_helpers;
pub mod types;
pub mod vault;
