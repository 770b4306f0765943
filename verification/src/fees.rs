//! Fees: the rate at which a fee is taken and the recipients among whom it
//! is divided.

use crate::error::ConfigError;
use crate::math::{lemma_part_at_most_all, Decimal, DECIMAL_FRACTIONAL};
use vstd::prelude::*;

verus! {

/// A fee: the fraction that is taken, and who receives which fraction of
/// what was taken.
#[derive(Clone, Debug, PartialEq, Eq)]
pub struct FeeConfig {
    /// The fraction of the tokens that is taken as a fee.
    pub fee_rate: Decimal,
    /// The recipients of the fee, each with its fraction of the fee. The
    /// fractions add up to one.
    pub fee_recipients: Vec<(String, Decimal)>,
}

/// The weights of `recipients`, added up.
pub open spec fn weight_sum(recipients: Seq<(String, Decimal)>) -> int
    decreases recipients.len(),
{
    if recipients.len() == 0 {
        0
    } else {
        weight_sum(recipients.drop_last()) + recipients.last().1.atomics
    }
}

/// Whether one of `recipients` has a weight of zero.
pub open spec fn has_zero_weight(recipients: Seq<(String, Decimal)>) -> bool {
    exists|k: int| 0 <= k < recipients.len() && (#[trigger] recipients[k]).1.atomics == 0
}

/// Who gets how much of `amount`: each of `recipients` but `contract` gets
/// its fraction of the amount, rounded down, in the order of the recipients.
pub open spec fn transfers(
    recipients: Seq<(String, Decimal)>,
    amount: u128,
    contract: Seq<char>,
) -> Seq<(Seq<char>, u128)>
    decreases recipients.len(),
{
    if recipients.len() == 0 {
        Seq::empty()
    } else {
        let before = transfers(recipients.drop_last(), amount, contract);
        let last = recipients.last();
        if last.0@ == contract {
            before
        } else {
            before.push((last.0@, last.1.part_of(amount) as u128))
        }
    }
}

/// Transfers as the contracts see them.
pub open spec fn transfers_view(transfers: Seq<(String, u128)>) -> Seq<(Seq<char>, u128)> {
    transfers.map_values(|t: (String, u128)| (t.0@, t.1))
}

/// A weight is no more than the sum of all weights.
pub proof fn lemma_weight_at_most_sum(recipients: Seq<(String, Decimal)>, k: int)
    requires
        0 <= k < recipients.len(),
    ensures
        0 <= recipients[k].1.atomics <= weight_sum(recipients),
        0 <= weight_sum(recipients.take(k)) <= weight_sum(recipients),
    decreases recipients.len(),
{
    let before = recipients.drop_last();
    if k < recipients.len() - 1 {
        lemma_weight_at_most_sum(before, k);
        assert(before.take(k) =~= recipients.take(k));
    } else {
        assert(before =~= recipients.take(k));
        lemma_weight_sum_not_negative(before);
    }
}

/// A sum of weights is not negative.
pub proof fn lemma_weight_sum_not_negative(recipients: Seq<(String, Decimal)>)
    ensures
        0 <= weight_sum(recipients),
    decreases recipients.len(),
{
    if recipients.len() > 0 {
        lemma_weight_sum_not_negative(recipients.drop_last());
    }
}

impl FeeConfig {
    /// What the rules say of this fee: the rate is at most one; where a fee
    /// is taken the weights of the recipients add up to one; and no recipient
    /// has a weight of zero. The first rule that is broken is reported.
    pub open spec fn check_outcome(&self) -> Result<(), ConfigError> {
        if self.fee_rate.atomics > DECIMAL_FRACTIONAL {
            Err(ConfigError::FeeRateTooHigh)
        } else if self.fee_rate.atomics != 0 && weight_sum(self.fee_recipients@)
            != DECIMAL_FRACTIONAL {
            Err(ConfigError::FeeWeightsNotOne)
        } else if has_zero_weight(self.fee_recipients@) {
            Err(ConfigError::FeeWeightZero)
        } else {
            Ok(())
        }
    }

    /// Whether this fee keeps the rules.
    pub open spec fn valid(&self) -> bool {
        self.check_outcome() is Ok
    }

    /// Holds this fee to the rules. The weights are added up where a fee is
    /// taken at a rate of at most one; their sum has to fit in 128 bits.
    pub fn check(&self) -> (r: Result<(), ConfigError>)
        requires
            0 < self.fee_rate.atomics <= DECIMAL_FRACTIONAL ==> weight_sum(self.fee_recipients@)
                <= u128::MAX,
        ensures
            r == self.check_outcome(),
    {
        if self.fee_rate.atomics > DECIMAL_FRACTIONAL {
            return Err(ConfigError::FeeRateTooHigh);
        }
        if self.fee_rate.atomics != 0 {
            let mut sum: u128 = 0;
            let mut i: usize = 0;
            while i < self.fee_recipients.len()
                invariant
                    i <= self.fee_recipients.len(),
                    sum == weight_sum(self.fee_recipients@.take(i as int)),
                    weight_sum(self.fee_recipients@) <= u128::MAX,
                decreases self.fee_recipients.len() - i,
            {
                proof {
                    lemma_weight_at_most_sum(self.fee_recipients@, i as int);
                    assert(self.fee_recipients@.take(i + 1).drop_last()
                        =~= self.fee_recipients@.take(i as int));
                    if i + 1 < self.fee_recipients.len() {
                        lemma_weight_at_most_sum(self.fee_recipients@, i + 1);
                    } else {
                        assert(self.fee_recipients@.take(i + 1) =~= self.fee_recipients@);
                    }
                }
                sum = sum + self.fee_recipients[i].1.atomics;
                i = i + 1;
            }
            assert(self.fee_recipients@.take(i as int) =~= self.fee_recipients@);
            if sum != DECIMAL_FRACTIONAL {
                return Err(ConfigError::FeeWeightsNotOne);
            }
        }
        let mut k: usize = 0;
        while k < self.fee_recipients.len()
            invariant
                k <= self.fee_recipients.len(),
                forall|j: int| 0 <= j < k ==> (#[trigger] self.fee_recipients@[j]).1.atomics != 0,
                self.fee_rate.atomics <= DECIMAL_FRACTIONAL,
                self.fee_rate.atomics != 0 ==> weight_sum(self.fee_recipients@)
                    == DECIMAL_FRACTIONAL,
            decreases self.fee_recipients.len() - k,
        {
            if self.fee_recipients[k].1.atomics == 0 {
                assert(self.fee_recipients@[k as int].1.atomics == 0);
                return Err(ConfigError::FeeWeightZero);
            }
            k = k + 1;
        }
        Ok(())
    }

    /// The fee on `amount`: the amount times the rate, rounded down.
    pub fn fee_amount(&self, amount: u128) -> (fee: u128)
        requires
            self.fee_rate.part_of(amount) <= u128::MAX,
        ensures
            fee == self.fee_rate.part_of(amount),
    {
        self.fee_rate.mul_amount(amount)
    }

    /// How `amount` is handed to the recipients of the fee: nothing where no
    /// fee is taken; else each recipient but the contract itself gets its
    /// fraction of the amount, rounded down.
    pub fn transfer_amounts(&self, amount: u128, contract: &str) -> (out: Vec<(String, u128)>)
        requires
            self.valid(),
        ensures
            self.fee_rate.atomics == 0 ==> out@.len() == 0,
            self.fee_rate.atomics != 0 ==> transfers_view(out@) == transfers(
                self.fee_recipients@,
                amount,
                contract@,
            ),
    {
        let mut out: Vec<(String, u128)> = Vec::new();
        if self.fee_rate.atomics == 0 {
            return out;
        }
        let itself = contract.to_owned();
        let mut i: usize = 0;
        while i < self.fee_recipients.len()
            invariant
                i <= self.fee_recipients.len(),
                weight_sum(self.fee_recipients@) == DECIMAL_FRACTIONAL,
                itself@ == contract@,
                transfers_view(out@) == transfers(
                    self.fee_recipients@.take(i as int),
                    amount,
                    contract@,
                ),
            decreases self.fee_recipients.len() - i,
        {
            let weight = self.fee_recipients[i].1;
            proof {
                lemma_weight_at_most_sum(self.fee_recipients@, i as int);
                lemma_part_at_most_all(weight, amount);
                assert(self.fee_recipients@.take(i + 1).drop_last()
                    =~= self.fee_recipients@.take(i as int));
            }
            let ghost before = out@;
            if !(self.fee_recipients[i].0 == itself) {
                let share = weight.mul_amount(amount);
                out.push((self.fee_recipients[i].0.clone(), share));
                assert(transfers_view(out@) =~= transfers_view(before).push(
                    (self.fee_recipients@[i as int].0@, share),
                ));
            }
            i = i + 1;
        }
        assert(self.fee_recipients@.take(i as int) =~= self.fee_recipients@);
        out
    }
}

} // verus!
