//! The arithmetic of a staking pool whose rewards compound.
//!
//! The pool holds a balance of tokens and has handed out shares for it. Funds
//! that come in without shares raise the value of every share. Staking buys
//! shares at the current value, unstaking sells them at it, both rounded
//! down.

use vstd::prelude::*;
use crate::error::{StdError, StdFault};

verus! {

/// `value * numerator / denominator` within 128 bits: the product may not
/// overflow, and the denominator may not be zero.
pub open spec fn proportion(value: u128, numerator: u128, denominator: u128) -> Result<
    u128,
    StdFault,
> {
    if value * numerator > u128::MAX {
        Err(StdFault::Overflow)
    } else if denominator == 0 {
        Err(StdFault::DivideByZero)
    } else {
        Ok(((value * numerator) / (denominator as int)) as u128)
    }
}

/// The shares that staking `amount` buys in a pool of `balance` tokens with
/// `staked_total` shares: as many as tokens while the pool is empty,
/// otherwise the part of the shares that the amount is of the balance.
pub open spec fn shares_bought(staked_total: u128, balance: u128, amount: u128) -> Result<
    u128,
    StdFault,
> {
    if staked_total == 0 || balance == 0 {
        Ok(amount)
    } else {
        proportion(staked_total, amount, balance)
    }
}

/// What a stake is worth: nothing while the pool, the stake or the shares
/// are empty, otherwise the stake's part of the balance.
pub open spec fn stake_worth(staked: u128, balance: u128, total: u128) -> Result<u128, StdFault> {
    if balance == 0 || staked == 0 || total == 0 {
        Ok(0)
    } else {
        proportion(staked, balance, total)
    }
}

/// `value * numerator / denominator`, rounded down.
pub fn checked_proportion(value: u128, numerator: u128, denominator: u128) -> (r: Result<
    u128,
    StdError,
>)
    ensures
        match r {
            Ok(x) => proportion(value, numerator, denominator) == Ok::<u128, StdFault>(x),
            Err(e) => proportion(value, numerator, denominator) == Err::<u128, StdFault>(e@),
        },
{
    let product = match value.checked_mul(numerator) {
        Some(p) => p,
        None => {
            return Err(StdError::Overflow);
        },
    };
    if denominator == 0 {
        return Err(StdError::DivideByZero);
    }
    Ok(product / denominator)
}

/// The shares that staking `amount` buys.
pub fn shares_for_stake(staked_total: u128, balance: u128, amount: u128) -> (r: Result<
    u128,
    StdError,
>)
    ensures
        match r {
            Ok(x) => shares_bought(staked_total, balance, amount) == Ok::<u128, StdFault>(x),
            Err(e) => shares_bought(staked_total, balance, amount) == Err::<u128, StdFault>(e@),
        },
{
    if staked_total == 0 || balance == 0 {
        Ok(amount)
    } else {
        checked_proportion(staked_total, amount, balance)
    }
}

/// The tokens that unstaking `amount` shares pays out.
pub fn tokens_for_unstake(amount: u128, balance: u128, staked_total: u128) -> (r: Result<
    u128,
    StdError,
>)
    ensures
        match r {
            Ok(x) => proportion(amount, balance, staked_total) == Ok::<u128, StdFault>(x),
            Err(e) => proportion(amount, balance, staked_total) == Err::<u128, StdFault>(e@),
        },
{
    checked_proportion(amount, balance, staked_total)
}

/// What `staked` shares are worth in a pool of `balance` tokens with `total`
/// shares.
pub fn staked_value(staked: u128, balance: u128, total: u128) -> (r: Result<u128, StdError>)
    ensures
        match r {
            Ok(x) => stake_worth(staked, balance, total) == Ok::<u128, StdFault>(x),
            Err(e) => stake_worth(staked, balance, total) == Err::<u128, StdFault>(e@),
        },
{
    if balance == 0 || staked == 0 || total == 0 {
        Ok(0)
    } else {
        checked_proportion(staked, balance, total)
    }
}

/// Unstaking never pays out more than the pool holds, as long as no more
/// shares are sold than exist.
pub proof fn lemma_unstake_within_balance(amount: u128, balance: u128, staked_total: u128)
    requires
        amount <= staked_total,
        proportion(amount, balance, staked_total) is Ok,
    ensures
        proportion(amount, balance, staked_total)->Ok_0 <= balance,
{
    let total = staked_total as int;
    assert(amount * balance <= total * balance) by (nonlinear_arith)
        requires
            0 <= amount <= total,
            0 <= balance,
    ;
    assert((amount * balance) / total <= balance) by (nonlinear_arith)
        requires
            0 <= amount * balance <= total * balance,
            total > 0,
    ;
}

} // verus!
