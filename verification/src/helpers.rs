//! Small helpers of the vault.

use crate::error::ContractError;
use crate::types::{Coin, Duration, MessageInfo};
use vstd::prelude::*;

verus! {

/// A value that can be zero.
pub trait IsZero {
    /// Whether the value is zero.
    spec fn zero(&self) -> bool;

    /// Whether the value is zero.
    fn is_zero(&self) -> (b: bool)
        ensures
            b == self.zero(),
    ;
}

/// A span is zero where it spans no block, or no second.
impl IsZero for Duration {
    open spec fn zero(&self) -> bool {
        match self {
            Duration::Time(seconds) => *seconds == 0,
            Duration::Height(blocks) => *blocks == 0,
        }
    }

    fn is_zero(&self) -> (b: bool) {
        match self {
            Duration::Time(seconds) => *seconds == 0,
            Duration::Height(blocks) => *blocks == 0,
        }
    }
}

/// Coins as the contracts see them: the denomination and the amount of each.
pub open spec fn coins_view(coins: Seq<Coin>) -> Seq<(Seq<char>, u128)> {
    coins.map_values(|coin: Coin| (coin.denom@, coin.amount))
}

/// Whether `funds` are exactly `amount` of `denom` and nothing else.
pub open spec fn funds_match(funds: Seq<Coin>, denom: Seq<char>, amount: u128) -> bool {
    funds.len() == 1 && funds[0].denom@ == denom && funds[0].amount == amount
}

/// A copy of `coins`.
pub fn copy_coins(coins: &Vec<Coin>) -> (copy: Vec<Coin>)
    ensures
        coins_view(copy@) == coins_view(coins@),
{
    let mut copy: Vec<Coin> = Vec::new();
    let mut k: usize = 0;
    while k < coins.len()
        invariant
            k <= coins.len(),
            coins_view(copy@) == coins_view(coins@.take(k as int)),
        decreases coins.len() - k,
    {
        let ghost before = copy@;
        copy.push(Coin { denom: coins[k].denom.clone(), amount: coins[k].amount });
        assert(coins_view(copy@) =~= coins_view(before).push(
            (coins@[k as int].denom@, coins@[k as int].amount),
        ));
        assert(coins_view(coins@.take(k + 1)) =~= coins_view(coins@.take(k as int)).push(
            (coins@[k as int].denom@, coins@[k as int].amount),
        ));
        k = k + 1;
    }
    assert(coins@.take(k as int) =~= coins@);
    copy
}

/// Tests that exactly `amount` of `denom` came with the message, and no
/// other funds. The error names the funds that were expected and those that
/// came.
pub fn assert_correct_funds(info: &MessageInfo, denom: &str, amount: u128) -> (r: Result<
    (),
    ContractError,
>)
    ensures
        funds_match(info.funds@, denom@, amount) ==> r is Ok,
        !funds_match(info.funds@, denom@, amount) ==> (r matches Err(
            ContractError::UnexpectedFunds { expected, actual },
        ) && coins_view(expected@) == seq![(denom@, amount)] && coins_view(actual@) == coins_view(
            info.funds@,
        )),
{
    let wanted = denom.to_owned();
    if info.funds.len() != 1 || !(info.funds[0].denom == wanted) || info.funds[0].amount != amount {
        let mut expected: Vec<Coin> = Vec::new();
        expected.push(Coin { denom: wanted, amount });
        assert(coins_view(expected@) =~= seq![(denom@, amount)]);
        return Err(
            ContractError::UnexpectedFunds { expected, actual: copy_coins(&info.funds) },
        );
    }
    Ok(())
}

/// The first coin of the funds, unless the funds are both more or less than
/// one coin and start with another denomination than `denom`.
pub fn one_coin(info: &MessageInfo, denom: &str) -> (r: Result<Coin, ContractError>)
    requires
        info.funds@.len() > 0,
    ensures
        info.funds@.len() != 1 && info.funds@[0].denom@ != denom@ ==> r == Err::<Coin, _>(
            ContractError::NotOneCoin,
        ),
        !(info.funds@.len() != 1 && info.funds@[0].denom@ != denom@) ==> (r matches Ok(coin)
            && coin.denom@ == info.funds@[0].denom@ && coin.amount == info.funds@[0].amount),
{
    let wanted = denom.to_owned();
    if info.funds.len() != 1 && !(info.funds[0].denom == wanted) {
        Err(ContractError::NotOneCoin)
    } else {
        Ok(Coin { denom: info.funds[0].denom.clone(), amount: info.funds[0].amount })
    }
}

/// The coin that `one_coin` gives, if it holds exactly `amount`.
pub fn correct_funds(info: &MessageInfo, denom: &str, amount: u128) -> (r: Result<
    Coin,
    ContractError,
>)
    requires
        info.funds@.len() > 0,
    ensures
        info.funds@.len() != 1 && info.funds@[0].denom@ != denom@ ==> r == Err::<Coin, _>(
            ContractError::NotOneCoin,
        ),
        !(info.funds@.len() != 1 && info.funds@[0].denom@ != denom@) && info.funds@[0].amount
            != amount ==> r == Err::<Coin, _>(
            ContractError::InvalidFundsAmount { actual: info.funds@[0].amount, expected: amount },
        ),
        !(info.funds@.len() != 1 && info.funds@[0].denom@ != denom@) && info.funds@[0].amount
            == amount ==> (r matches Ok(coin) && coin.denom@ == info.funds@[0].denom@
            && coin.amount == amount),
{
    let coin = match one_coin(info, denom) {
        Ok(coin) => coin,
        Err(e) => {
            return Err(e);
        },
    };
    if coin.amount != amount {
        Err(ContractError::InvalidFundsAmount { actual: coin.amount, expected: amount })
    } else {
        Ok(coin)
    }
}

} // verus!
