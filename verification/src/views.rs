//! What the engine answers without changing anything.

use vstd::prelude::*;
use crate::account::{name_of, AccountId, Key};
use crate::contract::{Contract, TECH_BACKUP_OWNER};
use crate::error::Error;
use crate::pricing::checked_compute_price;
use crate::sale::{base_price, capped, SaleInfo, Status, UserSaleInfo, MAX_DATE};
use crate::token::{checked_cost_in_token, one_token_in_yocto, pow10, TokenParameters};

verus! {

impl Contract {
    /// Whether the account is the owner or stands in for the owner.
    pub fn is_owner(&self, minter: &AccountId) -> (b: bool)
        ensures
            b == self@.is_owner(minter@),
    {
        minter.same(&self.owner_id) || minter.is_named(TECH_BACKUP_OWNER)
    }

    /// Whether the account is among the admins.
    pub fn is_admin(&self, account_id: &AccountId) -> (b: bool)
        requires
            self.wf(),
        ensures
            b == self@.admins.contains(account_id@),
    {
        self.admins.contains_key(account_id)
    }

    /// Whether the account is the owner, stands in for the owner, or is
    /// among the admins.
    pub fn is_owner_or_admin(&self, account_id: &AccountId) -> (b: bool)
        requires
            self.wf(),
        ensures
            b == (self@.is_owner(account_id@) || self@.admins.contains(account_id@)),
    {
        self.is_owner(account_id) || self.is_admin(account_id)
    }

    /// The owner of the collection.
    pub fn owner(&self) -> (owner: AccountId)
        ensures
            owner@ == self@.owner,
    {
        self.owner_id.duplicate()
    }

    /// How many units can still be sold: what the pool holds beyond what is
    /// promised to attempts in flight.
    pub fn tokens_left(&self) -> (n: u32)
        requires
            self.wf(),
        ensures
            n == self@.tokens_left(),
    {
        (self.raffle.len() as u32) - self.pending_tokens
    }

    /// How many units the collection has in all.
    pub fn initial(&self) -> (n: u64)
        requires
            self.wf(),
        ensures
            n == self@.size,
            n == self@.issued + self@.pool.len(),
    {
        self.raffle.initial_len()
    }

    /// The phase of the sale at time `now`.
    pub fn get_status(&self, now: u64) -> (status: Status)
        requires
            self.wf(),
        ensures
            status == self@.status(now),
    {
        self.sale.status(self.tokens_left(), now)
    }

    /// Whether the presale is on at time `now`.
    pub fn is_presale(&self, now: u64) -> (b: bool)
        requires
            self.wf(),
        ensures
            b == (self@.status(now) == Status::Presale),
    {
        self.get_status(now) == Status::Presale
    }

    /// Whether a cap on what one account may take applies at time `now`.
    pub fn has_allowance(&self, now: u64) -> (b: bool)
        requires
            self.wf(),
        ensures
            b == capped(self@.sale, self@.status(now)),
    {
        self.sale.capped(self.get_status(now))
    }

    /// What `num` units cost at time `now`, in native units; `Overflow`
    /// where that does not fit in 128 bits.
    pub fn price(&self, num: u32, now: u64) -> (r: Result<u128, Error>)
        requires
            self.wf(),
        ensures
            r == if self@.price(num as nat, now) <= u128::MAX {
                Ok::<u128, Error>(self@.price(num as nat, now) as u128)
            } else {
                Err::<u128, Error>(Error::Overflow)
            },
    {
        let p = self.sale.base_price(self.get_status(now));
        match checked_compute_price(self.counter, num, p) {
            Some(cost) => Ok(cost),
            None => Err(Error::Overflow),
        }
    }

    /// What `num` units cost the account at time `now`, in native units:
    /// nothing for the owner.
    pub fn minting_cost(&self, minter: &AccountId, num: u32, now: u64) -> (r: Result<u128, Error>)
        requires
            self.wf(),
        ensures
            r == if self@.minting_cost(minter@, num as nat, now) <= u128::MAX {
                Ok::<u128, Error>(self@.minting_cost(minter@, num as nat, now) as u128)
            } else {
                Err::<u128, Error>(Error::Overflow)
            },
    {
        if self.is_owner(minter) {
            Ok(0)
        } else {
            self.price(num, now)
        }
    }
    /// What `num` units cost the account at time `now` in what pays: in
    /// native units, or in units of the token.
    pub fn total_cost(&self, num: u32, minter: &AccountId, token_id: &Option<AccountId>, now: u64)
        -> (r: Result<u128, Error>)
        requires
            self.wf(),
        ensures
            r == self@.total_cost(num as nat, minter@, name_of(*token_id), now),
    {
        match token_id {
            None => self.minting_cost(minter, num, now),
            Some(token) => {
                let parameters = match self.fungible_tokens.get(token) {
                    Some(parameters) => parameters,
                    None => {
                        return Err(Error::UnknownToken);
                    },
                };
                let cost = match self.minting_cost(minter, num, now) {
                    Ok(cost) => cost,
                    Err(e) => {
                        return Err(e);
                    },
                };
                match checked_cost_in_token(cost, parameters) {
                    Some(c) => Ok(c),
                    None => Err(Error::Overflow),
                }
            },
        }
    }

    /// Whether the account is on the allow list.
    pub fn whitelisted(&self, account_id: &AccountId) -> (b: bool)
        requires
            self.wf(),
        ensures
            b == self@.allowances.contains_key(account_id@),
    {
        self.whitelist.contains_key(account_id)
    }

    /// What is left of the account's allowance; nothing is known of an
    /// account that is not on the allow list.
    pub fn remaining_allowance(&self, account_id: &AccountId) -> (r: Option<u32>)
        requires
            self.wf(),
        ensures
            r == if self@.allowances.contains_key(account_id@) {
                Some(self@.allowances[account_id@])
            } else {
                None
            },
    {
        match self.whitelist.get(account_id) {
            Some(a) => Some(*a),
            None => None,
        }
    }

    /// How many units one request may ask for, if that is limited.
    pub fn mint_rate_limit(&self) -> (r: Option<u32>)
        ensures
            r == self@.sale.mint_rate_limit,
    {
        self.sale.mint_rate_limit
    }

    /// The balance of the account in the token; nothing without a deposit.
    pub fn balance_of(&self, account_id: &AccountId, token_id: &AccountId) -> (balance: u128)
        requires
            self.wf(),
        ensures
            balance == self@.balance_of(token_id@, account_id@),
    {
        let key = (token_id.duplicate(), account_id.duplicate());
        match self.deposits.get(&key) {
            Some(balance) => *balance,
            None => 0,
        }
    }

    /// Whether the token is accepted as payment.
    pub fn is_token_whitelisted(&self, token_id: &AccountId) -> (b: bool)
        requires
            self.wf(),
        ensures
            b == self@.tokens.contains_key(token_id@),
    {
        self.fungible_tokens.contains_key(token_id)
    }

    /// How many decimals the token has, if it is accepted as payment.
    pub fn get_token_decimals(&self, token: &AccountId) -> (r: Option<u8>)
        requires
            self.wf(),
        ensures
            r == if self@.tokens.contains_key(token@) {
                Some(self@.tokens[token@].decimals)
            } else {
                None
            },
    {
        match self.fungible_tokens.get(token) {
            Some(parameters) => Some(parameters.decimals),
            None => None,
        }
    }

    /// One whole token in its smallest units, if the token is accepted as
    /// payment.
    pub fn get_one_token_in_yocto(&self, token: &AccountId) -> (r: Option<u128>)
        requires
            self.wf(),
        ensures
            r == if self@.tokens.contains_key(token@) {
                Some(pow10(self@.tokens[token@].decimals as nat) as u128)
            } else {
                None
            },
            r matches Some(one) ==> one == pow10(self@.tokens[token@].decimals as nat),
    {
        match self.fungible_tokens.get(token) {
            Some(parameters) => {
                assert(self@.tokens.contains_key(token@));
                Some(one_token_in_yocto(parameters.decimals))
            },
            None => None,
        }
    }

    /// What the sale shows of itself at time `now`: its phase, its two
    /// starts, the size of the collection and the price of the next unit.
    pub fn get_sale_info(&self, now: u64) -> (r: Result<SaleInfo, Error>)
        requires
            self.wf(),
        ensures
            r == self@.sale_info(now),
    {
        let price = match self.price(1, now) {
            Ok(price) => price,
            Err(e) => {
                return Err(e);
            },
        };
        Ok(
            SaleInfo {
                status: self.get_status(now),
                presale_start: match self.sale.presale_start {
                    Some(t) => t,
                    None => MAX_DATE,
                },
                sale_start: match self.sale.public_sale_start {
                    Some(t) => t,
                    None => MAX_DATE,
                },
                token_final_supply: self.initial(),
                price,
            },
        )
    }

    /// What the sale shows of itself to one account at time `now`: with
    /// what is left of its allowance while a cap applies, and whether it is
    /// on the allow list.
    pub fn get_user_sale_info(&self, account_id: &AccountId, now: u64) -> (r: Result<
        UserSaleInfo,
        Error,
    >)
        requires
            self.wf(),
        ensures
            match r {
                Ok(info) => self@.sale_info(now) == Ok::<SaleInfo, Error>(info.sale_info)
                    && info.is_vip == self@.allowances.contains_key(account_id@)
                    && info.remaining_allowance == if capped(self@.sale, self@.status(now))
                    && self@.allowances.contains_key(account_id@) {
                    Some(self@.allowances[account_id@])
                } else {
                    None
                },
                Err(e) => self@.sale_info(now) == Err::<SaleInfo, Error>(e),
            },
    {
        let sale_info = match self.get_sale_info(now) {
            Ok(info) => info,
            Err(e) => {
                return Err(e);
            },
        };
        let remaining_allowance = if self.has_allowance(now) {
            self.remaining_allowance(account_id)
        } else {
            None
        };
        Ok(UserSaleInfo { sale_info, is_vip: self.whitelisted(account_id), remaining_allowance })
    }
    /// What the storage of one unit costs, at `storage_byte_cost` for each
    /// of the bytes that a unit takes; `Overflow` where that does not fit
    /// in 128 bits.
    pub fn token_storage_cost(storage_byte_cost: u128, extra_storage_in_bytes_per_token: u64) -> (r:
        Result<u128, Error>)
        ensures
            r == if storage_byte_cost * extra_storage_in_bytes_per_token <= u128::MAX {
                Ok::<u128, Error>((storage_byte_cost * extra_storage_in_bytes_per_token) as u128)
            } else {
                Err::<u128, Error>(Error::Overflow)
            },
    {
        match storage_byte_cost.checked_mul(extra_storage_in_bytes_per_token as u128) {
            Some(cost) => Ok(cost),
            None => Err(Error::Overflow),
        }
    }

    /// The admins, each of them once.
    pub fn admins(&self) -> (list: Vec<AccountId>)
        requires
            self.wf(),
        ensures
            names(list@).no_duplicates(),
            names(list@).to_set() == self@.admins,
    {
        let mut list: Vec<AccountId> = Vec::new();
        let n = self.admins.len();
        let mut i: usize = 0;
        while i < n
            invariant
                self.wf(),
                n == self.admins.keys().len(),
                i <= n,
                names(list@) == self.admins.keys().take(i as int),
            decreases n - i,
        {
            let ghost before = list@;
            assert(names(before).len() == before.len());
            assert(self.admins.keys().take(i as int).len() == i);
            list.push(self.admins.key_at(i).duplicate());
            i = i + 1;
            assert forall|j: int| 0 <= j < list@.len() implies names(list@)[j]
                == self.admins.keys().take(i as int)[j] by {
                if j < before.len() {
                    assert(names(before)[j] == self.admins.keys().take(i - 1)[j]);
                }
            }
            assert(names(list@) =~= self.admins.keys().take(i as int));
        }
        proof {
            self.admins.lemma_keys();
            assert(self.admins.keys().take(n as int) =~= self.admins.keys());
        }
        list
    }

    /// The tokens that are accepted as payment, each of them once and with
    /// its terms.
    pub fn get_whitelisted_tokens(&self) -> (list: Vec<(AccountId, TokenParameters)>)
        requires
            self.wf(),
        ensures
            token_names(list@).no_duplicates(),
            token_names(list@).to_set() == self@.tokens.dom(),
            forall|i: int|
                0 <= i < list@.len() ==> self@.tokens.contains_key(#[trigger] list@[i].0@)
                    && list@[i].1 == self@.tokens[list@[i].0@],
    {
        let mut list: Vec<(AccountId, TokenParameters)> = Vec::new();
        let n = self.fungible_tokens.len();
        let mut i: usize = 0;
        while i < n
            invariant
                self.wf(),
                n == self.fungible_tokens.keys().len(),
                i <= n,
                token_names(list@) == self.fungible_tokens.keys().take(i as int),
                forall|j: int|
                    0 <= j < list@.len() ==> self@.tokens.contains_key(#[trigger] list@[j].0@)
                        && list@[j].1 == self@.tokens[list@[j].0@],
            decreases n - i,
        {
            let token = self.fungible_tokens.key_at(i).duplicate();
            let parameters = *self.fungible_tokens.value_at(i);
            let ghost before = list@;
            assert(token_names(before).len() == before.len());
            assert(self.fungible_tokens.keys().take(i as int).len() == i);
            list.push((token, parameters));
            i = i + 1;
            assert forall|j: int| 0 <= j < list@.len() implies token_names(list@)[j]
                == self.fungible_tokens.keys().take(i as int)[j] by {
                if j < before.len() {
                    assert(token_names(before)[j] == self.fungible_tokens.keys().take(i - 1)[j]);
                }
            }
            assert(token_names(list@) =~= self.fungible_tokens.keys().take(i as int));
        }
        proof {
            self.fungible_tokens.lemma_keys();
            assert(self.fungible_tokens.keys().take(n as int) =~= self.fungible_tokens.keys());
        }
        list
    }
}

/// The names of the accounts of a list, in its order.
pub open spec fn names(list: Seq<AccountId>) -> Seq<Seq<char>> {
    Seq::new(list.len(), |i: int| list[i]@)
}

/// The names of the tokens of a list of tokens with their terms, in its
/// order.
pub open spec fn token_names(list: Seq<(AccountId, TokenParameters)>) -> Seq<Seq<char>> {
    Seq::new(list.len(), |i: int| list[i].0@)
}

} // verus!
