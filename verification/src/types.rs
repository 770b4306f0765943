//! Plain data that the claim store works on: expiries, block and sender
//! information, the claim record and the errors of the store.

use vstd::prelude::*;

verus! {

/// Number of nanoseconds in one second.
pub const NANOS_PER_SECOND: u64 = 1_000_000_000;

/// The point at which a claim matures.
///
/// A height is compared with the block height, a time (in nanoseconds since
/// the epoch) with the block time. `Never` is the empty expiry: it is met by
/// no block.
#[derive(Clone, Copy, Debug, PartialEq, Eq, Structural)]
pub enum Expiration {
    /// Met once the block height is at least this height.
    AtHeight(u64),
    /// Met once the block time, in nanoseconds, is at least this time.
    AtTime(u64),
    /// Met by no block.
    Never,
}

/// A span of blocks or of seconds.
#[derive(Clone, Copy, Debug, PartialEq, Eq, Structural)]
pub enum Duration {
    /// A number of blocks.
    Height(u64),
    /// A number of seconds.
    Time(u64),
}

/// What the store needs to know of the block in which a call runs.
#[derive(Clone, Copy, Debug, PartialEq, Eq, Structural)]
pub struct BlockInfo {
    /// The height of the block.
    pub height: u64,
    /// The time of the block, in nanoseconds since the epoch.
    pub time: u64,
}

/// An amount of one denomination.
#[derive(Clone, Debug, PartialEq, Eq)]
pub struct Coin {
    pub denom: String,
    pub amount: u128,
}

/// Who sent a message, and the funds that came with it.
#[derive(Clone, Debug, PartialEq, Eq)]
pub struct MessageInfo {
    /// The authenticated sender.
    pub sender: String,
    /// The funds sent along.
    pub funds: Vec<Coin>,
}

/// An unlocking position: base tokens owed to `owner` once `release_at` is
/// met.
#[derive(Clone, Debug, PartialEq, Eq)]
pub struct Claim {
    /// The id under which the claim is stored.
    pub id: u64,
    /// The account that may withdraw the claim.
    pub owner: String,
    /// When the claim matures.
    pub release_at: Expiration,
    /// The base tokens that are still owed.
    pub base_token_amount: u128,
}

/// A claim as the contracts see it: the owner as a sequence of characters.
pub struct ClaimView {
    pub id: u64,
    pub owner: Seq<char>,
    pub release_at: Expiration,
    pub base_token_amount: u128,
}

impl View for Claim {
    type V = ClaimView;

    open spec fn view(&self) -> ClaimView {
        ClaimView {
            id: self.id,
            owner: self.owner@,
            release_at: self.release_at,
            base_token_amount: self.base_token_amount,
        }
    }
}

/// The entries of a page as the contracts see them.
pub open spec fn page_view(entries: Seq<(u64, Claim)>) -> Seq<(u64, ClaimView)> {
    entries.map_values(|entry: (u64, Claim)| (entry.0, entry.1@))
}

/// Why an operation of the store failed.
#[derive(Clone, Copy, Debug, PartialEq, Eq, Structural)]
pub enum ClaimError {
    /// No claim is stored under the id.
    NotFound,
    /// The caller does not own the claim.
    Unauthorized,
    /// The claim's expiry is not yet met.
    NotMatured,
    /// More was asked for than the claim still holds.
    InvalidAmount { claimable: u128, requested: u128 },
}

impl Expiration {
    /// Whether `block` meets this expiry.
    pub open spec fn expired_at(self, block: BlockInfo) -> bool {
        match self {
            Expiration::AtHeight(height) => block.height >= height,
            Expiration::AtTime(time) => block.time >= time,
            Expiration::Never => false,
        }
    }

    /// Whether `block` meets this expiry.
    pub fn is_expired(&self, block: &BlockInfo) -> (expired: bool)
        ensures
            expired == self.expired_at(*block),
    {
        match self {
            Expiration::AtHeight(height) => block.height >= *height,
            Expiration::AtTime(time) => block.time >= *time,
            Expiration::Never => false,
        }
    }
}

impl Duration {
    /// The expiry that lies this span after `block`, as a mathematical value:
    /// the height or the time may exceed what 64 bits hold.
    pub open spec fn end_after(self, block: BlockInfo) -> int {
        match self {
            Duration::Height(blocks) => block.height + blocks,
            Duration::Time(seconds) => block.time + seconds * NANOS_PER_SECOND,
        }
    }

    /// The expiry that is met this span after `block`.
    pub fn after(&self, block: &BlockInfo) -> (release_at: Expiration)
        requires
            self.end_after(*block) <= u64::MAX,
        ensures
            match *self {
                Duration::Height(_) => release_at == Expiration::AtHeight(
                    self.end_after(*block) as u64,
                ),
                Duration::Time(_) => release_at == Expiration::AtTime(
                    self.end_after(*block) as u64,
                ),
            },
    {
        match self {
            Duration::Height(blocks) => Expiration::AtHeight(block.height + *blocks),
            Duration::Time(seconds) => {
                assert(*seconds * NANOS_PER_SECOND <= u64::MAX) by (nonlinear_arith)
                    requires
                        block.time + *seconds * NANOS_PER_SECOND <= u64::MAX,
                        block.time >= 0,
                ;
                Expiration::AtTime(block.time + *seconds * NANOS_PER_SECOND)
            },
        }
    }
}

impl ClaimError {
    /// The text of the message that goes with this error.
    pub open spec fn message_text(self) -> Seq<char> {
        match self {
            ClaimError::NotFound => "Claim not found"@,
            ClaimError::Unauthorized => "Claim not owned by sender"@,
            ClaimError::NotMatured => "Claim has not yet matured."@,
            ClaimError::InvalidAmount { .. } =>
                "Claim amount is greater than the claimable amount"@,
        }
    }

    /// The message that goes with this error.
    pub fn message(&self) -> (text: String)
        ensures
            text@ == self.message_text(),
    {
        match self {
            ClaimError::NotFound => "Claim not found".to_owned(),
            ClaimError::Unauthorized => "Claim not owned by sender".to_owned(),
            ClaimError::NotMatured => "Claim has not yet matured.".to_owned(),
            ClaimError::InvalidAmount { .. } =>
                "Claim amount is greater than the claimable amount".to_owned(),
        }
    }
}

} // verus!
