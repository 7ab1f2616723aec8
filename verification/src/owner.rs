//! What the owner and the admins may change.

use vstd::prelude::*;
use crate::account::{AccountId, Key};
use crate::contract::Contract;
use crate::error::Error;
use crate::model::State;
use crate::token::TokenParameters;

verus! {

impl Contract {
    /// Accepts a token as payment, at a rate of `token_near` thousandths,
    /// with `discount` percent off the price, and with `decimals` decimals,
    /// which stay as they are from then on.
    pub fn admin_whitelist_token(
        &mut self,
        signer: &AccountId,
        token_id: &AccountId,
        token_near: u32,
        discount: u32,
        decimals: u8,
    ) -> (r: Result<(), Error>)
        requires
            old(self).wf(),
        ensures
            final(self).wf(),
            match r {
                Ok(_) => old(self)@.whitelist_token(
                    signer@,
                    token_id@,
                    token_near,
                    discount,
                    decimals,
                ) == Ok::<State, Error>(final(self)@),
                Err(e) => old(self)@.whitelist_token(
                    signer@,
                    token_id@,
                    token_near,
                    discount,
                    decimals,
                ) == Err::<State, Error>(e) && final(self)@ == old(self)@,
            },
    {
        if !self.is_owner_or_admin(signer) {
            return Err(Error::NotAuthorized);
        }
        if self.fungible_tokens.contains_key(token_id) {
            return Err(Error::TokenExists);
        }
        match TokenParameters::new(token_near, discount, decimals) {
            Some(parameters) => {
                self.fungible_tokens.insert(token_id.duplicate(), parameters);
                Ok(())
            },
            None => Err(Error::InvalidParameter),
        }
    }

    /// Sets the rate of a token to `cheddar_near` thousandths. The rate
    /// must be above a hundred.
    pub fn admin_set_cheddar_near(&mut self, signer: &AccountId, token_id: &AccountId, cheddar_near: u32)
        -> (r: Result<(), Error>)
        requires
            old(self).wf(),
        ensures
            final(self).wf(),
            match r {
                Ok(_) => old(self)@.set_token_near(signer@, token_id@, cheddar_near) == Ok::<
                    State,
                    Error,
                >(final(self)@),
                Err(e) => old(self)@.set_token_near(signer@, token_id@, cheddar_near) == Err::<
                    State,
                    Error,
                >(e) && final(self)@ == old(self)@,
            },
    {
        if !self.is_owner_or_admin(signer) {
            return Err(Error::NotAuthorized);
        }
        if cheddar_near <= 100 {
            return Err(Error::InvalidParameter);
        }
        let old_parameters = match self.fungible_tokens.get(token_id) {
            Some(parameters) => *parameters,
            None => {
                return Err(Error::UnknownToken);
            },
        };
        assert(self@.tokens.contains_key(token_id@));
        let parameters = TokenParameters {
            token_near: cheddar_near as u128,
            token_boost: old_parameters.token_boost,
            decimals: old_parameters.decimals,
        };
        self.fungible_tokens.insert(token_id.duplicate(), parameters);
        Ok(())
    }

    /// Sets what a token takes off the price to `discount` percent, which
    /// must be below a hundred.
    pub fn admin_set_token_discount(&mut self, signer: &AccountId, token_id: &AccountId, discount: u32)
        -> (r: Result<(), Error>)
        requires
            old(self).wf(),
        ensures
            final(self).wf(),
            match r {
                Ok(_) => old(self)@.set_token_discount(signer@, token_id@, discount) == Ok::<
                    State,
                    Error,
                >(final(self)@),
                Err(e) => old(self)@.set_token_discount(signer@, token_id@, discount) == Err::<
                    State,
                    Error,
                >(e) && final(self)@ == old(self)@,
            },
    {
        if !self.is_owner_or_admin(signer) {
            return Err(Error::NotAuthorized);
        }
        if discount >= 100 {
            return Err(Error::InvalidParameter);
        }
        let old_parameters = match self.fungible_tokens.get(token_id) {
            Some(parameters) => *parameters,
            None => {
                return Err(Error::UnknownToken);
            },
        };
        assert(self@.tokens.contains_key(token_id@));
        let parameters = TokenParameters {
            token_near: old_parameters.token_near,
            token_boost: 100 - discount,
            decimals: old_parameters.decimals,
        };
        self.fungible_tokens.insert(token_id.duplicate(), parameters);
        Ok(())
    }

    /// Makes the account an admin. Only the owner may.
    pub fn add_admin(&mut self, signer: &AccountId, account_id: &AccountId) -> (r: Result<(), Error>)
        requires
            old(self).wf(),
        ensures
            final(self).wf(),
            r == if old(self)@.is_owner(signer@) {
                Ok::<(), Error>(())
            } else {
                Err::<(), Error>(Error::NotAuthorized)
            },
            final(self)@ == if old(self)@.is_owner(signer@) {
                State { admins: old(self)@.admins.insert(account_id@), ..old(self)@ }
            } else {
                old(self)@
            },
    {
        if !self.is_owner(signer) {
            return Err(Error::NotAuthorized);
        }
        self.admins.insert(account_id.duplicate(), ());
        assert(self@.admins =~= old(self)@.admins.insert(account_id@));
        Ok(())
    }

    /// Makes the account no admin any more. Only the owner may.
    pub fn remove_admin(&mut self, signer: &AccountId, account_id: &AccountId) -> (r: Result<
        (),
        Error,
    >)
        requires
            old(self).wf(),
        ensures
            final(self).wf(),
            r == if old(self)@.is_owner(signer@) {
                Ok::<(), Error>(())
            } else {
                Err::<(), Error>(Error::NotAuthorized)
            },
            final(self)@ == if old(self)@.is_owner(signer@) {
                State { admins: old(self)@.admins.remove(account_id@), ..old(self)@ }
            } else {
                old(self)@
            },
    {
        if !self.is_owner(signer) {
            return Err(Error::NotAuthorized);
        }
        self.admins.remove(account_id);
        assert(self@.admins =~= old(self)@.admins.remove(account_id@));
        Ok(())
    }

    /// Puts the account on the allow list with the given allowance, in
    /// place of what was left of an earlier one. The owner and the admins
    /// may.
    pub fn add_whitelist_account(&mut self, signer: &AccountId, account_id: &AccountId, allowance: u32)
        -> (r: Result<(), Error>)
        requires
            old(self).wf(),
        ensures
            final(self).wf(),
            r == if old(self)@.is_owner_or_admin(signer@) {
                Ok::<(), Error>(())
            } else {
                Err::<(), Error>(Error::NotAuthorized)
            },
            final(self)@ == if old(self)@.is_owner_or_admin(signer@) {
                State {
                    allowances: old(self)@.allowances.insert(account_id@, allowance),
                    ..old(self)@
                }
            } else {
                old(self)@
            },
    {
        if !self.is_owner_or_admin(signer) {
            return Err(Error::NotAuthorized);
        }
        self.whitelist.insert(account_id.duplicate(), allowance);
        Ok(())
    }
}

} // verus!
