//! The errors of the vault.

use crate::types::{ClaimError, Coin};
use vstd::prelude::*;

verus! {

/// A rule of the configuration that a value breaks.
#[derive(Clone, Copy, Debug, PartialEq, Eq, Structural)]
pub enum ConfigError {
    /// A fee rate is above one.
    FeeRateTooHigh,
    /// A fee is taken, and the weights of its recipients do not add up to one.
    FeeWeightsNotOne,
    /// A fee recipient has a weight of zero.
    FeeWeightZero,
    /// The lock duration is given in blocks.
    LockDurationNotTime,
    /// The asset that rewards are sold for is none of the pool's assets.
    TargetNotInPool,
    /// The router knows no path from a reward token to that asset.
    NoRoute,
}

impl ConfigError {
    /// The text of the message that goes with this error.
    pub open spec fn message_text(self) -> Seq<char> {
        match self {
            ConfigError::FeeRateTooHigh => "Fee rate can't be higher than 100%"@,
            ConfigError::FeeWeightsNotOne => "Sum of fee recipient percentages must be 100%"@,
            ConfigError::FeeWeightZero => "Fee recipient percentages must be greater than zero"@,
            ConfigError::LockDurationNotTime => "lock_duration must be specified in seconds"@,
            ConfigError::TargetNotInPool =>
                "Reward liquidation target is not in the pool assets"@,
            ConfigError::NoRoute => "Could not read path in cw-dex-router for a reward token"@,
        }
    }

    /// The message that goes with this error.
    pub fn message(&self) -> (text: String)
        ensures
            text@ == self.message_text(),
    {
        match self {
            ConfigError::FeeRateTooHigh => "Fee rate can't be higher than 100%".to_owned(),
            ConfigError::FeeWeightsNotOne =>
                "Sum of fee recipient percentages must be 100%".to_owned(),
            ConfigError::FeeWeightZero =>
                "Fee recipient percentages must be greater than zero".to_owned(),
            ConfigError::LockDurationNotTime =>
                "lock_duration must be specified in seconds".to_owned(),
            ConfigError::TargetNotInPool =>
                "Reward liquidation target is not in the pool assets".to_owned(),
            ConfigError::NoRoute =>
                "Could not read path in cw-dex-router for a reward token".to_owned(),
        }
    }
}

/// The operation at which an amount left the range of 128 bits.
#[derive(Clone, Copy, Debug, PartialEq, Eq, Structural)]
pub enum OverflowOperation {
    Add,
    Sub,
}

/// Why a call of the vault failed.
#[derive(Clone, Debug, PartialEq, Eq)]
pub enum ContractError {
    /// The claim store refused.
    Claim(ClaimError),
    /// The configuration breaks a rule.
    Config(ConfigError),
    /// An amount left the range of 128 bits.
    Overflow { operation: OverflowOperation, operand1: u128, operand2: u128 },
    /// The exchange rate was asked for in another token than the base token.
    UnsupportedQuote,
    /// The caller may not make this call.
    Unauthorized,
    /// Deposits are switched off.
    DepositsDisabled,
    /// A reply came with an id that the vault never sent.
    UnknownReplyId { id: u64 },
    /// The vault has no lockup.
    LockupDisabled,
    /// An address is to be put on the whitelist and taken off it at once.
    AddAndRemoveSame,
    /// An address that is to be taken off the whitelist is not on it.
    NotInWhitelist,
    /// Other funds came with the message than the call asks for.
    UnexpectedFunds { expected: Vec<Coin>, actual: Vec<Coin> },
    /// The funds are not one coin of the denomination that the call asks for.
    NotOneCoin,
    /// The coin that came holds another amount than the call asks for.
    InvalidFundsAmount { actual: u128, expected: u128 },
}

} // verus!
