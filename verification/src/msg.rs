//! The messages that the vault adds to those of the vault standard.

use crate::config::ConfigUpdates;
use vstd::prelude::*;

verus! {

/// The calls that all vaults of this family take beyond the vault standard.
#[derive(Clone, Debug, PartialEq, Eq)]
pub enum ApolloExtensionExecuteMsg {
    /// Update the configuration of the vault.
    UpdateConfig { updates: ConfigUpdates },
    /// Compounds the vault.
    Compound {  },
}

/// The queries that all vaults of this family answer beyond the vault
/// standard.
#[derive(Clone, Debug, PartialEq, Eq)]
pub enum ApolloExtensionQueryMsg {
    /// Returns the current config.
    Config {  },
    /// Returns the current version of the contract.
    ContractVersion {  },
    /// Returns the addresses that may force a withdrawal, a page at a time.
    ForceWithdrawWhitelist { start_after: Option<String>, limit: Option<u32> },
    /// Returns the state of the vault that cannot be configured.
    State {  },
    /// Returns the owner of the contract.
    Ownership {  },
}

/// The message of a migration. It carries nothing.
#[derive(Clone, Copy, Debug, PartialEq, Eq, Structural)]
pub struct MigrateMsg {}

} // verus!
