//! Plain fungible amounts as the host hands them in.
//!
//! A `Coin` is one denomination with an unsigned amount. Operations that
//! require payment receive the full list of coins attached to the call and
//! accept it only when it is exactly one strictly positive amount of the
//! configured denomination.

use vstd::prelude::*;

use crate::error::{ContractError, ValidationKind};

verus! {

/// One denomination and an amount of it.
#[derive(Debug)]
pub struct Coin {
    pub denom: String,
    pub amount: u128,
}

/// The mathematical reading of a [`Coin`].
pub struct CoinView {
    pub denom: Seq<char>,
    pub amount: u128,
}

impl View for Coin {
    type V = CoinView;

    open spec fn view(&self) -> CoinView {
        CoinView { denom: self.denom@, amount: self.amount }
    }
}

impl Clone for Coin {
    fn clone(&self) -> (r: Self)
        ensures
            r@ == self@,
    {
        Coin { denom: self.denom.clone(), amount: self.amount }
    }
}

impl Coin {
    pub fn new(denom: String, amount: u128) -> (r: Coin)
        ensures
            r@ == (CoinView { denom: denom@, amount }),
    {
        Coin { denom, amount }
    }
}

/// The reading of a list of attached coins.
pub open spec fn coins_view(funds: Seq<Coin>) -> Seq<CoinView> {
    funds.map_values(|c: Coin| c@)
}

/// How a payment in a single required denomination is screened: empty,
/// zero, mixed and foreign payments are rejected in that order, and an
/// accepted payment yields its amount.
pub open spec fn spec_take_single_denom(funds: Seq<CoinView>, denom: Seq<char>) -> Result<
    u128,
    ContractError,
> {
    if funds.len() == 0 {
        Err(ContractError::Validation(ValidationKind::NoFunds))
    } else if funds[0].amount == 0 {
        Err(ContractError::Validation(ValidationKind::ZeroAmount))
    } else if funds.len() != 1 {
        Err(ContractError::Validation(ValidationKind::MultipleDenoms))
    } else if funds[0].denom != denom {
        Err(ContractError::Validation(ValidationKind::WrongDenom))
    } else {
        Ok(funds[0].amount)
    }
}

/// Screen the attached coins against the one required denomination.
pub fn take_single_denom(funds: &Vec<Coin>, denom: &String) -> (result: Result<
    u128,
    ContractError,
>)
    ensures
        result == spec_take_single_denom(coins_view(funds@), denom@),
{
    if funds.len() == 0 {
        return Err(ContractError::Validation(ValidationKind::NoFunds));
    }
    let first = &funds[0];
    if first.amount == 0 {
        return Err(ContractError::Validation(ValidationKind::ZeroAmount));
    }
    if funds.len() != 1 {
        return Err(ContractError::Validation(ValidationKind::MultipleDenoms));
    }
    if !(first.denom == *denom) {
        return Err(ContractError::Validation(ValidationKind::WrongDenom));
    }
    Ok(first.amount)
}

} // verus!
