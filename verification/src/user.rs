//! The prepaid balances of the accounts.

use vstd::prelude::*;
use crate::account::{AccountId, Key};
use crate::contract::Contract;
use crate::error::Error;
use crate::model::State;
use crate::token::one_token_in_yocto;

verus! {

impl Contract {
    /// Books `amount` units of the token that `sender_id` has handed over,
    /// and says how many of them were not taken: none. A deposit that is
    /// turned down changes nothing.
    pub fn ft_on_transfer(&mut self, token: &AccountId, sender_id: &AccountId, amount: u128) -> (r:
        Result<u128, Error>)
        requires
            old(self).wf(),
        ensures
            final(self).wf(),
            match r {
                Ok(unused) => unused == 0 && old(self)@.deposit(token@, sender_id@, amount) == Ok::<
                    State,
                    Error,
                >(final(self)@),
                Err(e) => old(self)@.deposit(token@, sender_id@, amount) == Err::<State, Error>(e)
                    && final(self)@ == old(self)@,
            },
    {
        let decimals = match self.fungible_tokens.get(token) {
            Some(parameters) => parameters.decimals,
            None => {
                return Err(Error::UnknownToken);
            },
        };
        assert(self@.tokens.contains_key(token@));
        let key = (token.duplicate(), sender_id.duplicate());
        let balance = match self.deposits.get(&key) {
            Some(deposit) => match deposit.checked_add(amount) {
                Some(sum) => sum,
                None => {
                    return Err(Error::Overflow);
                },
            },
            None => {
                if amount < one_token_in_yocto(decimals) {
                    return Err(Error::BelowMinimumDeposit);
                }
                proof {
                    crate::token::lemma_pow10_monotonic(0, decimals as nat);
                }
                amount
            },
        };
        self.deposits.insert(key, balance);
        Ok(0)
    }

    /// Takes `amount` units, or without an amount the whole balance, out of
    /// the deposit of `user` in the token, and says how many units leave. A
    /// withdrawal that is turned down changes nothing.
    pub fn withdraw_token(&mut self, user: &AccountId, amount: Option<u128>, token_id: &AccountId)
        -> (r: Result<u128, Error>)
        requires
            old(self).wf(),
        ensures
            final(self).wf(),
            match r {
                Ok(out) => old(self)@.withdraw(token_id@, user@, amount) == Ok::<
                    (State, u128),
                    Error,
                >((final(self)@, out)),
                Err(e) => old(self)@.withdraw(token_id@, user@, amount) == Err::<
                    (State, u128),
                    Error,
                >(e) && final(self)@ == old(self)@,
            },
    {
        let decimals = match self.fungible_tokens.get(token_id) {
            Some(parameters) => parameters.decimals,
            None => {
                return Err(Error::UnknownToken);
            },
        };
        assert(self@.tokens.contains_key(token_id@));
        let key = (token_id.duplicate(), user.duplicate());
        let deposit = match self.deposits.get(&key) {
            Some(deposit) => *deposit,
            None => {
                return Err(Error::NoDeposit);
            },
        };
        match amount {
            None => {
                self.deposits.remove(&key);
                Ok(deposit)
            },
            Some(amount) => {
                if deposit < amount {
                    return Err(Error::InsufficientFunds);
                }
                if deposit == amount {
                    self.deposits.remove(&key);
                    return Ok(deposit);
                }
                let rest = deposit - amount;
                if rest <= one_token_in_yocto(decimals) {
                    return Err(Error::InsufficientWithdrawalRemainder);
                }
                self.deposits.insert(key, rest);
                Ok(amount)
            },
        }
    }
}

} // verus!
