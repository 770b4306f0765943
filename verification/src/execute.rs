//! What the calls of the vault decide: how a deposit and a redemption are
//! booked, when a redemption is locked up, and who may withdraw a claim.

use crate::claims::Claims;
use crate::config::Config;
use crate::error::ContractError;
use crate::fees::FeeConfig;
use crate::helpers::{assert_correct_funds, coins_view, funds_match, IsZero};
use crate::math::{lemma_part_at_most_all, DECIMAL_FRACTIONAL};
use crate::model::owner_fits;
use crate::types::{BlockInfo, Claim, Expiration, MessageInfo};
use crate::vault::{burn_vault_tokens, mint_vault_tokens, VaultState};
use cosmwasm_std::MemoryStorage;
use vstd::pervasive::unreached;
use vstd::prelude::*;

verus! {

/// What a deposit comes to.
#[derive(Clone, Copy, Debug, PartialEq, Eq, Structural)]
pub struct DepositOutcome {
    /// The base tokens that go to the recipients of the deposit fee.
    pub fee_amount: u128,
    /// The base tokens that are staked: the deposit less the fee.
    pub staked_amount: u128,
    /// The vault tokens that are minted for the depositor.
    pub minted: u128,
}

/// How redeemed base tokens leave the vault.
#[derive(Clone, Debug, PartialEq, Eq)]
pub enum Release {
    /// The base tokens are sent to the recipient at once.
    Now { amount: u128 },
    /// The base tokens are locked: the recipient holds this claim on them.
    Locked { claim: Claim },
}

/// What a redemption comes to.
#[derive(Clone, Debug, PartialEq, Eq)]
pub struct RedeemOutcome {
    /// The base tokens that the vault tokens stand for.
    pub claim_amount: u128,
    /// The base tokens that go to the recipients of the withdrawal fee.
    pub fee_amount: u128,
    /// The base tokens to unstake now.
    pub unstake_amount: u128,
    /// How the base tokens less the fee leave the vault.
    pub release: Release,
}

/// The fee on `amount`, as a mathematical value.
pub open spec fn fee_on(fee: &FeeConfig, amount: u128) -> int {
    fee.fee_rate.part_of(amount)
}

/// Whether redeemed base tokens are released at once: where the vault has
/// no lockup, or the redemption is forced.
pub open spec fn released_at_once(cfg: &Config, force_redeem: bool) -> bool {
    cfg.lock_duration.zero() || force_redeem
}

/// Books a deposit of `amount` base tokens: the deposit fee is taken off,
/// the rest is staked, and vault tokens are minted for the rest.
pub fn deposit(cfg: &Config, state: &mut VaultState, amount: u128) -> (r: Result<
    DepositOutcome,
    ContractError,
>)
    requires
        cfg.deposit_fee.fee_rate.atomics <= DECIMAL_FRACTIONAL,
        cfg.deposits_enabled ==> old(state).shares_for(
            (amount - fee_on(&cfg.deposit_fee, amount)) as u128,
        ) <= u128::MAX,
    ensures
        !cfg.deposits_enabled ==> r == Err::<DepositOutcome, _>(ContractError::DepositsDisabled)
            && *final(state) == *old(state),
        cfg.deposits_enabled ==> ({
            let fee = fee_on(&cfg.deposit_fee, amount) as u128;
            let rest = (amount - fee) as u128;
            let minted = old(state).shares_for(rest) as u128;
            match r {
                Ok(outcome) => {
                    &&& outcome == DepositOutcome { fee_amount: fee, staked_amount: rest, minted }
                    &&& old(state).minted(rest, minted) == Ok::<_, ContractError>(*final(state))
                },
                Err(e) => {
                    &&& old(state).minted(rest, minted) == Err::<VaultState, _>(e)
                    &&& *final(state) == *old(state)
                },
            }
        }),
{
    if !cfg.deposits_enabled {
        return Err(ContractError::DepositsDisabled);
    }
    proof {
        lemma_part_at_most_all(cfg.deposit_fee.fee_rate, amount);
    }
    let fee_amount = cfg.deposit_fee.fee_amount(amount);
    let staked_amount = amount - fee_amount;
    match mint_vault_tokens(state, staked_amount) {
        Ok(minted) => Ok(DepositOutcome { fee_amount, staked_amount, minted }),
        Err(e) => Err(e),
    }
}

/// Books a redemption of `amount` vault tokens for `recipient`.
///
/// The vault tokens have to come with the message, and nothing else. They
/// are taken from the supply and the base tokens that they stand for from
/// what is staked. The withdrawal fee is taken off. Where the vault has no
/// lockup, or the redemption is forced, all of it is unstaked and the rest
/// released at once; else the fee alone is unstaked and a claim on the rest
/// is created for the recipient, which matures when the lock duration has
/// passed.
pub fn redeem(
    claims: &Claims,
    storage: &mut MemoryStorage,
    cfg: &Config,
    state: &mut VaultState,
    block: &BlockInfo,
    info: &MessageInfo,
    vault_token_denom: &str,
    amount: u128,
    recipient: &str,
    force_redeem: bool,
) -> (r: Result<RedeemOutcome, ContractError>)
    requires
        claims.inv(*old(storage)),
        cfg.withdrawal_fee.fee_rate.atomics <= DECIMAL_FRACTIONAL,
        old(state).assets_for(amount) <= u128::MAX,
        !released_at_once(cfg, force_redeem) ==> {
            &&& owner_fits(recipient@)
            &&& claims.state(*old(storage)).next_id() < u64::MAX
            &&& cfg.lock_duration.end_after(*block) <= u64::MAX
        },
    ensures
        claims.inv(*final(storage)),
        ({
            let claim_amount = old(state).assets_for(amount) as u128;
            let fee = fee_on(&cfg.withdrawal_fee, claim_amount) as u128;
            let rest = (claim_amount - fee) as u128;
            let before = claims.state(*old(storage));
            match r {
                Ok(outcome) => {
                    &&& funds_match(info.funds@, vault_token_denom@, amount)
                    &&& old(state).burned(amount, claim_amount) == Ok::<_, ContractError>(
                        *final(state),
                    )
                    &&& outcome.claim_amount == claim_amount
                    &&& outcome.fee_amount == fee
                    &&& released_at_once(cfg, force_redeem) ==> {
                        &&& outcome.release == Release::Now { amount: rest }
                        &&& outcome.unstake_amount == claim_amount
                        &&& *final(storage) == *old(storage)
                    }
                    &&& !released_at_once(cfg, force_redeem) ==> {
                        &&& outcome.release matches Release::Locked { claim }
                        &&& claim@ == before.created(
                            recipient@,
                            rest,
                            lock_expiry(cfg, *block),
                        )
                        &&& outcome.unstake_amount == fee
                        &&& claims.state(*final(storage)) == before.create(
                            recipient@,
                            rest,
                            lock_expiry(cfg, *block),
                        )
                    }
                },
                Err(e) => {
                    &&& !funds_match(info.funds@, vault_token_denom@, amount) ==> {
                        &&& e matches ContractError::UnexpectedFunds { expected, actual }
                        &&& coins_view(expected@) == seq![(vault_token_denom@, amount)]
                        &&& coins_view(actual@) == coins_view(info.funds@)
                        &&& *final(state) == *old(state)
                        &&& *final(storage) == *old(storage)
                    }
                    &&& funds_match(info.funds@, vault_token_denom@, amount) && old(state).burned(
                        amount,
                        claim_amount,
                    ) is Err ==> {
                        &&& old(state).burned(amount, claim_amount) == Err::<VaultState, _>(e)
                        &&& *final(state) == *old(state)
                        &&& *final(storage) == *old(storage)
                    }
                    &&& funds_match(info.funds@, vault_token_denom@, amount) ==> old(state).burned(
                        amount,
                        claim_amount,
                    ) is Err
                },
            }
        }),
{
    match assert_correct_funds(info, vault_token_denom, amount) {
        Ok(()) => {},
        Err(e) => {
            return Err(e);
        },
    }
    let claim_amount = match burn_vault_tokens(state, amount) {
        Ok(released) => released,
        Err(e) => {
            return Err(e);
        },
    };
    proof {
        lemma_part_at_most_all(cfg.withdrawal_fee.fee_rate, claim_amount);
    }
    let fee_amount = cfg.withdrawal_fee.fee_amount(claim_amount);
    let claim_amount_after_fee = claim_amount - fee_amount;
    if cfg.lock_duration.is_zero() || force_redeem {
        Ok(
            RedeemOutcome {
                claim_amount,
                fee_amount,
                unstake_amount: claim_amount,
                release: Release::Now { amount: claim_amount_after_fee },
            },
        )
    } else {
        let release_at = cfg.lock_duration.after(block);
        match claims.create_claim(storage, recipient, claim_amount_after_fee, release_at) {
            Ok(claim) => Ok(
                RedeemOutcome {
                    claim_amount,
                    fee_amount,
                    unstake_amount: fee_amount,
                    release: Release::Locked { claim },
                },
            ),
            Err(_) => unreached(),
        }
    }
}

/// The expiry of a claim that is created in `block`: the lock duration
/// after the block.
pub open spec fn lock_expiry(cfg: &Config, block: BlockInfo) -> Expiration {
    match cfg.lock_duration {
        crate::types::Duration::Height(_) => Expiration::AtHeight(
            cfg.lock_duration.end_after(block) as u64,
        ),
        crate::types::Duration::Time(_) => Expiration::AtTime(
            cfg.lock_duration.end_after(block) as u64,
        ),
    }
}

/// Withdraws the matured claim `lockup_id` for the sender of `info`.
/// Returns the base tokens to unstake and to send.
pub fn withdraw_unlocked(
    claims: &Claims,
    storage: &mut MemoryStorage,
    block: &BlockInfo,
    info: &MessageInfo,
    lockup_id: u64,
) -> (r: Result<u128, ContractError>)
    requires
        claims.inv(*old(storage)),
    ensures
        claims.inv(*final(storage)),
        match claims.state(*old(storage)).claim_outcome(*block, info.sender@, lockup_id) {
            Ok(amount) => r == Ok::<_, ContractError>(amount),
            Err(e) => r == Err::<u128, _>(ContractError::Claim(e)),
        },
        claims.state(*final(storage)) == claims.state(*old(storage)).after_claim(
            *block,
            info.sender@,
            lockup_id,
        ),
        r is Err ==> *final(storage) == *old(storage),
{
    match claims.claim_tokens(storage, block, info, lockup_id) {
        Ok(amount) => Ok(amount),
        Err(e) => Err(ContractError::Claim(e)),
    }
}

/// Withdraws `amount` of the claim `lockup_id` for the sender of `info`
/// before it has matured, or all of it where no amount is named. Only a
/// sender on the whitelist may do so: `whitelisted` says whether it is.
/// Returns the base tokens to unstake and to send.
pub fn force_withdraw_unlocking(
    claims: &Claims,
    storage: &mut MemoryStorage,
    info: &MessageInfo,
    whitelisted: bool,
    amount: Option<u128>,
    lockup_id: u64,
) -> (r: Result<u128, ContractError>)
    requires
        claims.inv(*old(storage)),
    ensures
        claims.inv(*final(storage)),
        r is Err ==> *final(storage) == *old(storage),
        !whitelisted ==> r == Err::<u128, _>(ContractError::Unauthorized),
        whitelisted ==> {
            &&& match claims.state(*old(storage)).force_outcome(info.sender@, lockup_id, amount) {
                Ok(claimed) => r == Ok::<_, ContractError>(claimed),
                Err(e) => r == Err::<u128, _>(ContractError::Claim(e)),
            }
            &&& claims.state(*final(storage)) == claims.state(*old(storage)).after_force(
                info.sender@,
                lockup_id,
                amount,
            )
        },
{
    if !whitelisted {
        return Err(ContractError::Unauthorized);
    }
    match claims.force_claim(storage, info, lockup_id, amount) {
        Ok(claimed) => Ok(claimed),
        Err(e) => Err(ContractError::Claim(e)),
    }
}

/// What becomes of the balance of one reward token when rewards are sold:
/// the performance fee on it, and the amount to sell. The asset that
/// rewards are sold for is not sold itself.
pub fn reward_split(performance_fee: &FeeConfig, balance: u128, is_target: bool) -> (r: (
    u128,
    u128,
))
    requires
        performance_fee.fee_rate.atomics <= DECIMAL_FRACTIONAL,
    ensures
        r.0 == fee_on(performance_fee, balance),
        r.1 == if is_target {
            0
        } else {
            balance - fee_on(performance_fee, balance)
        },
{
    proof {
        lemma_part_at_most_all(performance_fee.fee_rate, balance);
    }
    let fee_amount = performance_fee.fee_amount(balance);
    let amount_to_sell = balance - fee_amount;
    if is_target {
        (fee_amount, 0)
    } else {
        (fee_amount, amount_to_sell)
    }
}

/// Whether `address` is one of `addresses`.
pub open spec fn listed_among(addresses: Seq<String>, address: Seq<char>) -> bool {
    exists|k: int| 0 <= k < addresses.len() && (#[trigger] addresses[k])@ == address
}

/// Tests an address that is to be taken off the whitelist against the
/// addresses that the same call puts on it: an address cannot be put on the
/// list and taken off it at once.
pub fn refuse_add_and_remove(add_addresses: &Vec<String>, address: &str) -> (r: Result<
    (),
    ContractError,
>)
    ensures
        listed_among(add_addresses@, address@) ==> r == Err::<(), _>(
            ContractError::AddAndRemoveSame,
        ),
        !listed_among(add_addresses@, address@) ==> r is Ok,
{
    let wanted = address.to_owned();
    let mut k: usize = 0;
    while k < add_addresses.len()
        invariant
            k <= add_addresses.len(),
            wanted@ == address@,
            forall|j: int| 0 <= j < k ==> (#[trigger] add_addresses@[j])@ != address@,
        decreases add_addresses.len() - k,
    {
        if add_addresses[k] == wanted {
            assert(add_addresses@[k as int]@ == address@);
            return Err(ContractError::AddAndRemoveSame);
        }
        k = k + 1;
    }
    Ok(())
}

/// Tests that an address that was to be taken off the whitelist was on it:
/// `was_removed` says whether the list held the address.
pub fn require_removed(was_removed: bool) -> (r: Result<(), ContractError>)
    ensures
        was_removed ==> r is Ok,
        !was_removed ==> r == Err::<(), _>(ContractError::NotInWhitelist),
{
    if was_removed {
        Ok(())
    } else {
        Err(ContractError::NotInWhitelist)
    }
}

} // verus!
