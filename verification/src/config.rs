//! The configuration of the vault and the rules that it has to keep.

use crate::error::ConfigError;
use crate::fees::{weight_sum, FeeConfig};
use crate::math::DECIMAL_FRACTIONAL;
use crate::types::Duration;
use vstd::prelude::*;

verus! {

/// A token: a native coin by its denomination, or a contract token by the
/// address of its contract.
#[derive(Clone, Debug, PartialEq, Eq)]
pub enum AssetInfo {
    Native(String),
    Cw20(String),
}

/// A token as the contracts see it.
pub enum AssetInfoView {
    Native(Seq<char>),
    Cw20(Seq<char>),
}

impl View for AssetInfo {
    type V = AssetInfoView;

    open spec fn view(&self) -> AssetInfoView {
        match self {
            AssetInfo::Native(denom) => AssetInfoView::Native(denom@),
            AssetInfo::Cw20(address) => AssetInfoView::Cw20(address@),
        }
    }
}

impl AssetInfo {
    /// Whether this is the token `other`.
    pub fn same(&self, other: &AssetInfo) -> (b: bool)
        ensures
            b == (self@ == other@),
    {
        match (self, other) {
            (AssetInfo::Native(a), AssetInfo::Native(b)) => *a == *b,
            (AssetInfo::Cw20(a), AssetInfo::Cw20(b)) => *a == *b,
            _ => false,
        }
    }
}

/// Whether `asset` is one of `assets`.
pub open spec fn among(assets: Seq<AssetInfo>, asset: AssetInfoView) -> bool {
    exists|k: int| 0 <= k < assets.len() && (#[trigger] assets[k])@ == asset
}

/// The configuration of the vault.
#[derive(Clone, Debug, PartialEq, Eq)]
pub struct Config {
    /// How long redeemed base tokens stay locked. Zero seconds switch the
    /// lockup off.
    pub lock_duration: Duration,
    /// The tokens that are compounded into more base tokens.
    pub reward_tokens: Vec<AssetInfo>,
    /// Whether deposits are enabled.
    pub deposits_enabled: bool,
    /// The address of the router contract.
    pub router: String,
    /// The asset that rewards are sold for before liquidity is provided. It
    /// is one of the assets of the pool.
    pub reward_liquidation_target: AssetInfo,
    /// The address of the helper that provides liquidity with unbalanced
    /// assets.
    pub liquidity_helper: String,
    /// The fee on rewards.
    pub performance_fee: FeeConfig,
    /// The fee on deposits.
    pub deposit_fee: FeeConfig,
    /// The fee on withdrawals.
    pub withdrawal_fee: FeeConfig,
}

/// Changes to a configuration: a new value for each field that is to change.
#[derive(Clone, Debug, PartialEq, Eq)]
pub struct ConfigUpdates {
    pub lock_duration: Option<Duration>,
    pub reward_tokens: Option<Vec<AssetInfo>>,
    pub deposits_enabled: Option<bool>,
    pub router: Option<String>,
    pub reward_liquidation_target: Option<AssetInfo>,
    pub liquidity_helper: Option<String>,
    pub performance_fee: Option<FeeConfig>,
    pub deposit_fee: Option<FeeConfig>,
    pub withdrawal_fee: Option<FeeConfig>,
}

/// The new value of a field where there is one, else the value it has.
pub open spec fn updated<T>(update: Option<T>, current: T) -> T {
    match update {
        Some(value) => value,
        None => current,
    }
}

impl ConfigUpdates {
    /// Writes each new value into `config` and leaves the other fields as
    /// they are.
    pub fn apply_to(self, config: &mut Config)
        ensures
            final(config).lock_duration == updated(self.lock_duration, old(config).lock_duration),
            final(config).reward_tokens == updated(self.reward_tokens, old(config).reward_tokens),
            final(config).deposits_enabled == updated(
                self.deposits_enabled,
                old(config).deposits_enabled,
            ),
            final(config).router == updated(self.router, old(config).router),
            final(config).reward_liquidation_target == updated(
                self.reward_liquidation_target,
                old(config).reward_liquidation_target,
            ),
            final(config).liquidity_helper == updated(
                self.liquidity_helper,
                old(config).liquidity_helper,
            ),
            final(config).performance_fee == updated(
                self.performance_fee,
                old(config).performance_fee,
            ),
            final(config).deposit_fee == updated(self.deposit_fee, old(config).deposit_fee),
            final(config).withdrawal_fee == updated(
                self.withdrawal_fee,
                old(config).withdrawal_fee,
            ),
    {
        if let Some(value) = self.lock_duration {
            config.lock_duration = value;
        }
        if let Some(value) = self.reward_tokens {
            config.reward_tokens = value;
        }
        if let Some(value) = self.deposits_enabled {
            config.deposits_enabled = value;
        }
        if let Some(value) = self.router {
            config.router = value;
        }
        if let Some(value) = self.reward_liquidation_target {
            config.reward_liquidation_target = value;
        }
        if let Some(value) = self.liquidity_helper {
            config.liquidity_helper = value;
        }
        if let Some(value) = self.performance_fee {
            config.performance_fee = value;
        }
        if let Some(value) = self.deposit_fee {
            config.deposit_fee = value;
        }
        if let Some(value) = self.withdrawal_fee {
            config.withdrawal_fee = value;
        }
    }
}

/// Whether the weights of `fee` can be added up in 128 bits where they are
/// added up at all.
pub open spec fn sum_fits(fee: &FeeConfig) -> bool {
    0 < fee.fee_rate.atomics <= DECIMAL_FRACTIONAL ==> weight_sum(fee.fee_recipients@) <= u128::MAX
}

/// Holds a lock duration to its rule: it is given in seconds.
pub fn check_lock_duration(lock_duration: &Duration) -> (r: Result<(), ConfigError>)
    ensures
        lock_duration is Time ==> r is Ok,
        !(lock_duration is Time) ==> r == Err::<(), _>(ConfigError::LockDurationNotTime),
{
    match lock_duration {
        Duration::Time(_) => Ok(()),
        _ => Err(ConfigError::LockDurationNotTime),
    }
}

impl Config {
    /// What the rules say of the asset that rewards are sold for: it is one
    /// of `pool_assets`.
    pub open spec fn outcome_of_target(&self, pool_assets: Seq<AssetInfo>) -> Result<
        (),
        ConfigError,
    > {
        if among(pool_assets, self.reward_liquidation_target@) {
            Ok(())
        } else {
            Err(ConfigError::TargetNotInPool)
        }
    }

    /// Holds the asset that rewards are sold for to its rule.
    pub fn check_target(&self, pool_assets: &Vec<AssetInfo>) -> (r: Result<(), ConfigError>)
        ensures
            r == self.outcome_of_target(pool_assets@),
    {
        let mut k: usize = 0;
        while k < pool_assets.len()
            invariant
                k <= pool_assets.len(),
                forall|j: int|
                    0 <= j < k ==> (#[trigger] pool_assets@[j])@
                        != self.reward_liquidation_target@,
            decreases pool_assets.len() - k,
        {
            if pool_assets[k].same(&self.reward_liquidation_target) {
                assert(pool_assets@[k as int]@ == self.reward_liquidation_target@);
                return Ok(());
            }
            k = k + 1;
        }
        Err(ConfigError::TargetNotInPool)
    }

    /// What the rules say of this configuration before a route is looked up:
    /// the lock duration is given in seconds, and the asset that rewards are
    /// sold for is one of `pool_assets`.
    pub open spec fn outcome_before_routes(&self, pool_assets: Seq<AssetInfo>) -> Result<
        (),
        ConfigError,
    > {
        if !(self.lock_duration is Time) {
            Err(ConfigError::LockDurationNotTime)
        } else if !among(pool_assets, self.reward_liquidation_target@) {
            Err(ConfigError::TargetNotInPool)
        } else {
            Ok(())
        }
    }

    /// Holds this configuration to the rules that come before the routes.
    pub fn check_before_routes(&self, pool_assets: &Vec<AssetInfo>) -> (r: Result<
        (),
        ConfigError,
    >)
        ensures
            r == self.outcome_before_routes(pool_assets@),
    {
        match check_lock_duration(&self.lock_duration) {
            Ok(()) => {},
            Err(e) => {
                return Err(e);
            },
        }
        self.check_target(pool_assets)
    }

    /// The reward tokens for which the router has to know a path: the
    /// positions, in ascending order, of the reward tokens other than the
    /// asset that rewards are sold for.
    pub fn routes_needed(&self) -> (positions: Vec<usize>)
        ensures
            forall|j: int|
                0 <= j < positions@.len() ==> {
                    &&& (#[trigger] positions@[j]) < self.reward_tokens@.len()
                    &&& self.reward_tokens@[positions@[j] as int]@
                        != self.reward_liquidation_target@
                },
            forall|i: int, j: int|
                0 <= i < j < positions@.len() ==> (#[trigger] positions@[i])
                    < (#[trigger] positions@[j]),
            forall|p: int|
                0 <= p < self.reward_tokens@.len() && (#[trigger] self.reward_tokens@[p])@
                    != self.reward_liquidation_target@ ==> positions@.contains(p as usize),
    {
        let mut positions: Vec<usize> = Vec::new();
        let mut k: usize = 0;
        while k < self.reward_tokens.len()
            invariant
                k <= self.reward_tokens.len(),
                forall|j: int|
                    0 <= j < positions@.len() ==> {
                        &&& (#[trigger] positions@[j]) < k
                        &&& self.reward_tokens@[positions@[j] as int]@
                            != self.reward_liquidation_target@
                    },
                forall|i: int, j: int|
                    0 <= i < j < positions@.len() ==> (#[trigger] positions@[i])
                        < (#[trigger] positions@[j]),
                forall|p: int|
                    0 <= p < k && (#[trigger] self.reward_tokens@[p])@
                        != self.reward_liquidation_target@ ==> positions@.contains(p as usize),
            decreases self.reward_tokens.len() - k,
        {
            if !self.reward_tokens[k].same(&self.reward_liquidation_target) {
                let ghost before = positions@;
                positions.push(k);
                assert forall|p: int|
                    0 <= p < k + 1 && (#[trigger] self.reward_tokens@[p])@
                        != self.reward_liquidation_target@ implies positions@.contains(
                    p as usize,
                ) by {
                    if p < k {
                        assert(before.contains(p as usize));
                        let at = choose|at: int| 0 <= at < before.len() && before[at] == p as usize;
                        assert(positions@[at] == p as usize);
                    } else {
                        assert(positions@[positions@.len() - 1] == p as usize);
                    }
                }
            }
            k = k + 1;
        }
        positions
    }

    /// What the rules say of the three fees: the first fee that breaks a
    /// rule is reported, in the order of performance, deposit, withdrawal.
    pub open spec fn outcome_of_fees(&self) -> Result<(), ConfigError> {
        if self.performance_fee.check_outcome() is Err {
            self.performance_fee.check_outcome()
        } else if self.deposit_fee.check_outcome() is Err {
            self.deposit_fee.check_outcome()
        } else {
            self.withdrawal_fee.check_outcome()
        }
    }

    /// Holds the three fees to their rules.
    pub fn check_fees(&self) -> (r: Result<(), ConfigError>)
        requires
            sum_fits(&self.performance_fee),
            self.performance_fee.valid() ==> sum_fits(&self.deposit_fee),
            self.performance_fee.valid() && self.deposit_fee.valid() ==> sum_fits(
                &self.withdrawal_fee,
            ),
        ensures
            r == self.outcome_of_fees(),
    {
        match self.performance_fee.check() {
            Ok(()) => {},
            Err(e) => {
                return Err(e);
            },
        }
        match self.deposit_fee.check() {
            Ok(()) => {},
            Err(e) => {
                return Err(e);
            },
        }
        self.withdrawal_fee.check()
    }
}

} // verus!
