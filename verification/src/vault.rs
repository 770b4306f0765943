//! The accounts of the vault: base tokens staked, vault tokens issued, and
//! the rate between the two.

use crate::error::{ContractError, OverflowOperation};
use crate::math::{multiply_ratio, ratio_of, Decimal, DECIMAL_FRACTIONAL};
use vstd::prelude::*;

verus! {

/// The vault tokens that the first base token buys.
pub const INITIAL_VAULT_TOKENS_PER_BASE_TOKEN: u128 = 1_000_000;

/// The state of the vault.
#[derive(Clone, Copy, Debug, PartialEq, Eq, Structural)]
pub struct VaultState {
    /// The base tokens staked in the vault.
    pub staked_base_tokens: u128,
    /// The vault tokens in circulation.
    pub vault_token_supply: u128,
}

impl VaultState {
    /// The vault tokens that `base_token_amount` base tokens buy: the same
    /// share of the supply as the amount is of what is staked, rounded down,
    /// and a fixed number for each base token while nothing is staked.
    pub open spec fn shares_for(self, base_token_amount: u128) -> int {
        if self.staked_base_tokens == 0 {
            base_token_amount * INITIAL_VAULT_TOKENS_PER_BASE_TOKEN
        } else {
            ratio_of(self.vault_token_supply, base_token_amount, self.staked_base_tokens)
        }
    }

    /// The base tokens that `vault_token_amount` vault tokens release: the
    /// same share of what is staked as the amount is of the supply, rounded
    /// down.
    pub open spec fn assets_for(self, vault_token_amount: u128) -> int {
        if self.vault_token_supply == 0 {
            vault_token_amount as int / INITIAL_VAULT_TOKENS_PER_BASE_TOKEN as int
        } else {
            ratio_of(self.staked_base_tokens, vault_token_amount, self.vault_token_supply)
        }
    }

    /// The base tokens that one vault token stands for, times 10 to the
    /// power of 18 and rounded down.
    pub open spec fn rate_atomics(self) -> int {
        if self.vault_token_supply == 0 {
            ratio_of(1, DECIMAL_FRACTIONAL, INITIAL_VAULT_TOKENS_PER_BASE_TOKEN)
        } else {
            ratio_of(self.staked_base_tokens, DECIMAL_FRACTIONAL, self.vault_token_supply)
        }
    }

    /// The state after `deposit_amount` base tokens came in and `minted`
    /// vault tokens went out, where both totals fit in 128 bits.
    pub open spec fn minted(self, deposit_amount: u128, minted: u128) -> Result<
        VaultState,
        ContractError,
    > {
        if self.staked_base_tokens + deposit_amount > u128::MAX {
            Err(
                ContractError::Overflow {
                    operation: OverflowOperation::Add,
                    operand1: self.staked_base_tokens,
                    operand2: deposit_amount,
                },
            )
        } else if self.vault_token_supply + minted > u128::MAX {
            Err(
                ContractError::Overflow {
                    operation: OverflowOperation::Add,
                    operand1: self.vault_token_supply,
                    operand2: minted,
                },
            )
        } else {
            Ok(
                VaultState {
                    staked_base_tokens: (self.staked_base_tokens + deposit_amount) as u128,
                    vault_token_supply: (self.vault_token_supply + minted) as u128,
                },
            )
        }
    }

    /// The state after `burn_amount` vault tokens came back and `released`
    /// base tokens went out, where the vault holds both.
    pub open spec fn burned(self, burn_amount: u128, released: u128) -> Result<
        VaultState,
        ContractError,
    > {
        if self.staked_base_tokens < released {
            Err(
                ContractError::Overflow {
                    operation: OverflowOperation::Sub,
                    operand1: self.staked_base_tokens,
                    operand2: released,
                },
            )
        } else if self.vault_token_supply < burn_amount {
            Err(
                ContractError::Overflow {
                    operation: OverflowOperation::Sub,
                    operand1: self.vault_token_supply,
                    operand2: burn_amount,
                },
            )
        } else {
            Ok(
                VaultState {
                    staked_base_tokens: (self.staked_base_tokens - released) as u128,
                    vault_token_supply: (self.vault_token_supply - burn_amount) as u128,
                },
            )
        }
    }
}

/// The vault tokens that are minted for `base_token_amount` base tokens.
pub fn convert_to_shares(state: &VaultState, base_token_amount: u128) -> (shares: u128)
    requires
        state.shares_for(base_token_amount) <= u128::MAX,
    ensures
        shares == state.shares_for(base_token_amount),
{
    if state.staked_base_tokens == 0 {
        return base_token_amount * INITIAL_VAULT_TOKENS_PER_BASE_TOKEN;
    }
    multiply_ratio(state.vault_token_supply, base_token_amount, state.staked_base_tokens)
}

/// The base tokens that are released for `vault_token_amount` vault tokens.
pub fn convert_to_assets(state: &VaultState, vault_token_amount: u128) -> (assets: u128)
    requires
        state.assets_for(vault_token_amount) <= u128::MAX,
    ensures
        assets == state.assets_for(vault_token_amount),
{
    if state.vault_token_supply == 0 {
        return vault_token_amount / INITIAL_VAULT_TOKENS_PER_BASE_TOKEN;
    }
    multiply_ratio(state.staked_base_tokens, vault_token_amount, state.vault_token_supply)
}

/// Books a deposit of `deposit_amount` base tokens: the vault tokens that
/// the deposit buys are added to the supply, the deposit to what is staked.
/// Returns the vault tokens to mint. Where a total leaves the range of 128
/// bits the state is left as it was.
pub fn mint_vault_tokens(state: &mut VaultState, deposit_amount: u128) -> (r: Result<
    u128,
    ContractError,
>)
    requires
        old(state).shares_for(deposit_amount) <= u128::MAX,
    ensures
        match r {
            Ok(mint_amount) => {
                &&& mint_amount == old(state).shares_for(deposit_amount)
                &&& old(state).minted(deposit_amount, mint_amount) == Ok::<_, ContractError>(
                    *final(state),
                )
            },
            Err(e) => {
                &&& *final(state) == *old(state)
                &&& old(state).minted(
                    deposit_amount,
                    old(state).shares_for(deposit_amount) as u128,
                ) == Err::<VaultState, _>(e)
            },
        },
{
    let mint_amount = convert_to_shares(state, deposit_amount);
    let staked = match state.staked_base_tokens.checked_add(deposit_amount) {
        Some(total) => total,
        None => {
            return Err(
                ContractError::Overflow {
                    operation: OverflowOperation::Add,
                    operand1: state.staked_base_tokens,
                    operand2: deposit_amount,
                },
            );
        },
    };
    let supply = match state.vault_token_supply.checked_add(mint_amount) {
        Some(total) => total,
        None => {
            return Err(
                ContractError::Overflow {
                    operation: OverflowOperation::Add,
                    operand1: state.vault_token_supply,
                    operand2: mint_amount,
                },
            );
        },
    };
    state.staked_base_tokens = staked;
    state.vault_token_supply = supply;
    Ok(mint_amount)
}

/// Books the return of `burn_amount` vault tokens: the base tokens that they
/// release are taken from what is staked, the vault tokens from the supply.
/// Returns the base tokens to release. Where the vault holds less than is
/// to be taken the state is left as it was.
pub fn burn_vault_tokens(state: &mut VaultState, burn_amount: u128) -> (r: Result<
    u128,
    ContractError,
>)
    requires
        old(state).assets_for(burn_amount) <= u128::MAX,
    ensures
        match r {
            Ok(release_amount) => {
                &&& release_amount == old(state).assets_for(burn_amount)
                &&& old(state).burned(burn_amount, release_amount) == Ok::<_, ContractError>(
                    *final(state),
                )
            },
            Err(e) => {
                &&& *final(state) == *old(state)
                &&& old(state).burned(burn_amount, old(state).assets_for(burn_amount) as u128)
                    == Err::<VaultState, _>(e)
            },
        },
{
    let release_amount = convert_to_assets(state, burn_amount);
    let staked = match state.staked_base_tokens.checked_sub(release_amount) {
        Some(rest) => rest,
        None => {
            return Err(
                ContractError::Overflow {
                    operation: OverflowOperation::Sub,
                    operand1: state.staked_base_tokens,
                    operand2: release_amount,
                },
            );
        },
    };
    let supply = match state.vault_token_supply.checked_sub(burn_amount) {
        Some(rest) => rest,
        None => {
            return Err(
                ContractError::Overflow {
                    operation: OverflowOperation::Sub,
                    operand1: state.vault_token_supply,
                    operand2: burn_amount,
                },
            );
        },
    };
    state.staked_base_tokens = staked;
    state.vault_token_supply = supply;
    Ok(release_amount)
}

/// The base tokens to stake after a compounding round: the balance less the
/// deposit that was staked already, and no less than zero.
pub open spec fn stake_amount(lp_token_balance: u128, discount_deposit: Option<u128>) -> u128 {
    match discount_deposit {
        Some(discount) => if discount >= lp_token_balance {
            0
        } else {
            (lp_token_balance - discount) as u128
        },
        None => lp_token_balance,
    }
}

/// Books the staking of the base tokens that a compounding round brought.
/// Returns the amount to stake, or `None` where there is nothing to stake;
/// then the state is left as it was. Where something is staked the whole
/// balance is added to what is staked.
pub fn stake_lps(state: &mut VaultState, lp_token_balance: u128, discount_deposit: Option<u128>) -> (r:
    Option<u128>)
    requires
        stake_amount(lp_token_balance, discount_deposit) != 0 ==> old(state).staked_base_tokens
            + lp_token_balance <= u128::MAX,
    ensures
        stake_amount(lp_token_balance, discount_deposit) == 0 ==> r is None && *final(state)
            == *old(state),
        stake_amount(lp_token_balance, discount_deposit) != 0 ==> {
            &&& r == Some(stake_amount(lp_token_balance, discount_deposit))
            &&& final(state).staked_base_tokens == old(state).staked_base_tokens
                + lp_token_balance
            &&& final(state).vault_token_supply == old(state).vault_token_supply
        },
{
    let amount = match discount_deposit {
        Some(discount) => lp_token_balance.saturating_sub(discount),
        None => lp_token_balance,
    };
    if amount == 0 {
        return None;
    }
    state.staked_base_tokens = state.staked_base_tokens + lp_token_balance;
    Some(amount)
}

/// The base tokens that one vault token stands for. The rate is quoted in
/// the base token alone.
pub fn vault_token_exchange_rate(state: &VaultState, base_token: &str, quote_denom: &str) -> (r:
    Result<Decimal, ContractError>)
    requires
        state.rate_atomics() <= u128::MAX,
    ensures
        quote_denom@ == base_token@ ==> (r matches Ok(rate) && rate.atomics
            == state.rate_atomics()),
        quote_denom@ != base_token@ ==> r == Err::<Decimal, _>(ContractError::UnsupportedQuote),
{
    if quote_denom.to_owned() == base_token.to_owned() {
        if state.vault_token_supply == 0 {
            Ok(Decimal::from_ratio(1, INITIAL_VAULT_TOKENS_PER_BASE_TOKEN))
        } else {
            Ok(Decimal::from_ratio(state.staked_base_tokens, state.vault_token_supply))
        }
    } else {
        Err(ContractError::UnsupportedQuote)
    }
}

} // verus!
