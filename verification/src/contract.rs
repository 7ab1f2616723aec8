//! The engine: the pool, the counters and the books, and what a mint does
//! to them.

use vstd::prelude::*;
use crate::account::{name_of, AccountId, Key};
use crate::assoc::AssocMap;
use crate::error::Error;
use crate::model::{Charge, Settling, State};
use crate::raffle::{drawn, left, lemma_draws_are_distinct, seeds, Raffle};
use crate::sale::Status;
use crate::sale::Sale;
use crate::token::TokenParameters;

verus! {

/// The name of the account that may act as the owner beside the owner.
pub const TECH_BACKUP_OWNER: &'static str = "willem.near";

/// A mint that has drawn its units and waits to be paid for.
pub struct Unsettled {
    /// Who pays.
    pub user: AccountId,
    /// The token that pays, or none for the native one.
    pub token: Option<AccountId>,
    /// How many units were drawn.
    pub num: u32,
    /// What the units cost, in what pays.
    pub cost: u128,
}

impl View for Unsettled {
    type V = Settling;

    open spec fn view(&self) -> Settling {
        Settling {
            user: self.user@,
            token: name_of(self.token),
            num: self.num as nat,
            cost: self.cost as nat,
        }
    }
}

/// The engine of one sale.
pub struct Contract {
    pub(crate) owner_id: AccountId,
    pub(crate) raffle: Raffle,
    pub(crate) pending_tokens: u32,
    pub(crate) counter: u32,
    pub(crate) sale: Sale,
    pub(crate) whitelist: AssocMap<AccountId, u32>,
    pub(crate) admins: AssocMap<AccountId, ()>,
    pub(crate) fungible_tokens: AssocMap<AccountId, TokenParameters>,
    pub(crate) deposits: AssocMap<(AccountId, AccountId), u128>,
    pub(crate) settling: Option<Unsettled>,
    pub(crate) attempts: AssocMap<u64, ()>,
    pub(crate) next_attempt: u64,
}

impl View for Contract {
    type V = State;

    open(crate) spec fn view(&self) -> State {
        State {
            owner: self.owner_id@,
            size: self.raffle.initial(),
            pool: self.raffle@,
            issued: self.counter as nat,
            pending: self.pending_tokens as nat,
            sale: self.sale,
            allowances: self.whitelist@,
            admins: self.admins@.dom(),
            tokens: self.fungible_tokens@,
            deposits: self.deposits@,
            settling: match self.settling {
                Some(s) => Some(s@),
                None => None,
            },
            attempts: self.attempts@.dom(),
            next_attempt: self.next_attempt as nat,
        }
    }
}

impl Contract {
    /// The engine is in a state that it keeps to.
    pub open(crate) spec fn wf(&self) -> bool {
        &&& self.raffle.wf()
        &&& self.whitelist.wf()
        &&& self.admins.wf()
        &&& self.fungible_tokens.wf()
        &&& self.deposits.wf()
        &&& self.attempts.wf()
        &&& self@.inv()
    }

    /// An engine wherever it stands keeps every unit in the pool or
    /// issued, holds no empty deposit, and counts one promise for every
    /// attempt in flight.
    pub proof fn lemma_wf(&self)
        requires
            self.wf(),
        ensures
            self@.inv(),
    {
    }

    /// An engine for a collection of `size` units that `owner_id` owns, on
    /// the given terms: the pool holds every identifier below `size`,
    /// nothing is issued or promised, and the books are empty.
    pub fn new(owner_id: AccountId, size: u32, sale: Sale) -> (contract: Contract)
        ensures
            contract.wf(),
            contract@ == (State {
                owner: owner_id@,
                size: size as nat,
                pool: Seq::new(size as nat, |i: int| i as u64),
                issued: 0,
                pending: 0,
                sale,
                allowances: Map::empty(),
                admins: Set::empty(),
                tokens: Map::empty(),
                deposits: Map::empty(),
                settling: None,
                attempts: Set::empty(),
                next_attempt: 0,
            }),
    {
        let contract = Contract {
            owner_id,
            raffle: Raffle::new(size as u64),
            pending_tokens: 0,
            counter: 0,
            sale,
            whitelist: AssocMap::new(),
            admins: AssocMap::new(),
            fungible_tokens: AssocMap::new(),
            deposits: AssocMap::new(),
            settling: None,
            attempts: AssocMap::new(),
            next_attempt: 0,
        };
        proof {
            assert(contract@.admins =~= Set::<Seq<char>>::empty());
            assert(contract@.attempts =~= Set::<u64>::empty());
        }
        contract
    }

    /// An engine on terms that set a price and nothing else.
    pub fn new_with_sale_price(owner_id: AccountId, size: u32, sale_price: u128) -> (contract:
        Contract)
        ensures
            contract.wf(),
            contract@ == (State {
                owner: owner_id@,
                size: size as nat,
                pool: Seq::new(size as nat, |i: int| i as u64),
                issued: 0,
                pending: 0,
                sale: (Sale {
                    initial_royalties: false,
                    presale_start: None,
                    public_sale_start: None,
                    allowance: None,
                    presale_price: None,
                    price: sale_price,
                    mint_rate_limit: None,
                }),
                allowances: Map::empty(),
                admins: Set::empty(),
                tokens: Map::empty(),
                deposits: Map::empty(),
                settling: None,
                attempts: Set::empty(),
                next_attempt: 0,
            }),
    {
        Contract::new(owner_id, size, Sale::new(sale_price))
    }

    /// How many units a request of the account for `num` units is granted
    /// at time `now`, or why it is turned down.
    pub fn assert_can_mint(&self, account_id: &AccountId, num: u32, now: u64) -> (r: Result<
        u32,
        Error,
    >)
        requires
            self.wf(),
        ensures
            r == self@.granted(account_id@, num, now),
            r matches Ok(n) ==> n <= num && n <= self@.tokens_left(),
    {
        let left = self.tokens_left();
        let mut num = num;
        if !self.is_owner(account_id) {
            let status = self.get_status(now);
            let allowance = match status {
                Status::SoldOut => {
                    return Err(Error::SoldOut);
                },
                Status::Closed => {
                    return Err(Error::Closed);
                },
                Status::Presale | Status::Open => {
                    if self.sale.capped(status) {
                        match self.get_whitelist_allowance(account_id) {
                            Some(allowance) => allowance,
                            None => {
                                return Err(Error::NoAllowance);
                            },
                        }
                    } else {
                        num
                    }
                },
            };
            if allowance < num {
                num = allowance;
            }
            if num == 0 {
                return Err(Error::NoAllowance);
            }
        } else if num > 0 && left == 0 {
            return Err(Error::Exhausted);
        }
        if left < num {
            num = left;
        }
        Ok(num)
    }

    /// The allowance that counts for the account: what is left of it, or
    /// for an account without any the cap of the sale, if there is one.
    pub fn get_whitelist_allowance(&self, account_id: &AccountId) -> (r: Option<u32>)
        requires
            self.wf(),
        ensures
            r == self@.allowance_of(account_id@),
    {
        match self.whitelist.get(account_id) {
            Some(allowance) => Some(*allowance),
            None => self.sale.allowance,
        }
    }

    /// Takes `num` units off the allowance of the account, where a cap
    /// applies at time `now` and the account is not the owner. An account
    /// without an allowance starts from the cap of the sale.
    pub fn use_whitelist_allowance(&mut self, account_id: &AccountId, num: u32, now: u64)
        requires
            old(self).wf(),
        ensures
            final(self).wf(),
            final(self)@ == (State {
                allowances: old(self)@.allowances_after(account_id@, num, now),
                ..old(self)@
            }),
    {
        if self.has_allowance(now) && !self.is_owner(account_id) {
            match self.get_whitelist_allowance(account_id) {
                Some(allowance) => {
                    let new_allowance = allowance - if num < allowance {
                        num
                    } else {
                        allowance
                    };
                    self.whitelist.insert(account_id.duplicate(), new_allowance);
                },
                None => {},
            }
        }
    }

    /// Draws `num` units for the account by one seed and counts them as
    /// issued. Unless they are free, the mint then waits to be paid for
    /// with `cost`, in the token or, without one, in native units.
    pub fn nft_mint_many_ungaurded(
        &mut self,
        num: u32,
        user: &AccountId,
        mint_for_free: bool,
        token: Option<AccountId>,
        cost: u128,
        seed: u64,
    ) -> (ids: Vec<u64>)
        requires
            old(self).wf(),
            old(self)@.settling is None,
            num <= old(self)@.pool.len(),
            old(self)@.pending <= old(self)@.pool.len() - num,
            token matches Some(t) ==> old(self)@.tokens.contains_key(t@),
        ensures
            final(self).wf(),
            final(self)@ == (State {
                pool: left(old(self)@.pool, seeds(seed, num as nat)),
                issued: old(self)@.issued + num as nat,
                settling: if mint_for_free {
                    None
                } else {
                    Some(
                        Settling {
                            user: user@,
                            token: name_of(token),
                            num: num as nat,
                            cost: cost as nat,
                        },
                    )
                },
                ..old(self)@
            }),
            ids@ == drawn(old(self)@.pool, seeds(seed, num as nat)),
            ids@.len() == num,
    {
        let ids = self.raffle.draw_many(seed, num);
        self.counter = self.counter + num;
        if !mint_for_free {
            self.settling = Some(Unsettled { user: user.duplicate(), token, num, cost });
        }
        ids
    }

    /// Grants the signer up to `num` units at time `now`, draws them by one
    /// seed and hands out their identifiers. The mint then waits to be paid
    /// for, in the token or, without one, in native units. A request that is
    /// turned down changes nothing.
    pub fn nft_mint_many(
        &mut self,
        signer: &AccountId,
        token: Option<AccountId>,
        num: u32,
        now: u64,
        seed: u64,
    ) -> (r: Result<Vec<u64>, Error>)
        requires
            old(self).wf(),
        ensures
            final(self).wf(),
            match r {
                Ok(ids) => old(self)@.mint(signer@, name_of(token), num, now, seed) == Ok::<
                    (State, Seq<u64>),
                    Error,
                >((final(self)@, ids@)),
                Err(e) => old(self)@.mint(signer@, name_of(token), num, now, seed) == Err::<
                    (State, Seq<u64>),
                    Error,
                >(e) && final(self)@ == old(self)@,
            },
            r matches Ok(ids) ==> ids@.len() <= num && old(self)@.granted(signer@, num, now)
                == Ok::<u32, Error>(ids@.len() as u32),
    {
        if self.settling.is_some() {
            return Err(Error::Unsettled);
        }
        if let Some(limit) = self.sale.mint_rate_limit {
            if num > limit {
                return Err(Error::OverMintLimit);
            }
        }
        let granted = match self.assert_can_mint(signer, num, now) {
            Ok(granted) => granted,
            Err(e) => {
                return Err(e);
            },
        };
        let cost = match self.total_cost(granted, signer, &token, now) {
            Ok(cost) => cost,
            Err(e) => {
                return Err(e);
            },
        };
        self.use_whitelist_allowance(signer, granted, now);
        let ids = self.nft_mint_many_ungaurded(granted, signer, false, token, cost, seed);
        Ok(ids)
    }

    /// Grants the signer one unit at time `now`, draws it and hands out its
    /// identifier. The mint then waits to be paid for.
    pub fn nft_mint_one(&mut self, signer: &AccountId, token: Option<AccountId>, now: u64, seed: u64)
        -> (r: Result<u64, Error>)
        requires
            old(self).wf(),
        ensures
            final(self).wf(),
            match r {
                Ok(id) => old(self)@.mint(signer@, name_of(token), 1, now, seed) == Ok::<
                    (State, Seq<u64>),
                    Error,
                >((final(self)@, seq![id])),
                Err(e) => old(self)@.mint(signer@, name_of(token), 1, now, seed) == Err::<
                    (State, Seq<u64>),
                    Error,
                >(e) && final(self)@ == old(self)@,
            },
    {
        match self.nft_mint_many(signer, token, 1, now, seed) {
            Ok(ids) => {
                assert(old(self)@.granted(signer@, 1, now) != Ok::<u32, Error>(0));
                assert(ids@ =~= seq![ids@[0]]);
                Ok(ids[0])
            },
            Err(e) => Err(e),
        }
    }

    /// Pays for the mint that waits, with `attached_deposit` native units
    /// at hand and `storage_used` bytes to pay for at `storage_byte_cost`
    /// each, and says what was charged and what goes back. A payment that
    /// fails changes nothing, and the mint goes on waiting.
    pub fn charge_user(&mut self, attached_deposit: u128, storage_used: u64, storage_byte_cost: u128)
        -> (r: Result<Charge, Error>)
        requires
            old(self).wf(),
        ensures
            final(self).wf(),
            match r {
                Ok(charge) => old(self)@.charge(attached_deposit, storage_used, storage_byte_cost)
                    == Ok::<(State, Charge), Error>((final(self)@, charge)),
                Err(e) => old(self)@.charge(attached_deposit, storage_used, storage_byte_cost)
                    == Err::<(State, Charge), Error>(e) && final(self)@ == old(self)@,
            },
    {
        let (user, token, cost) = match &self.settling {
            None => {
                return Err(Error::NotSettling);
            },
            Some(s) => (
                s.user.duplicate(),
                match &s.token {
                    Some(t) => Some(t.duplicate()),
                    None => None,
                },
                s.cost,
            ),
        };
        let storage_cost = match storage_byte_cost.checked_mul(storage_used as u128) {
            Some(storage_cost) => storage_cost,
            None => {
                return Err(Error::Overflow);
            },
        };
        if attached_deposit < storage_cost {
            return Err(Error::InsufficientFunds);
        }
        let near_left = attached_deposit - storage_cost;
        let kept = if self.sale.initial_royalties {
            cost
        } else {
            0
        };
        let back = match token {
            Some(token) => {
                let deposit = self.balance_of(&user, &token);
                if deposit < cost {
                    return Err(Error::InsufficientFunds);
                }
                let new_deposit = deposit - cost;
                let key = (token, user);
                if new_deposit == 0 {
                    self.deposits.remove(&key);
                } else {
                    self.deposits.insert(key, new_deposit);
                }
                near_left
            },
            None => {
                if near_left < cost {
                    return Err(Error::InsufficientFunds);
                }
                near_left - kept
            },
        };
        self.settling = None;
        Ok(
            Charge {
                cost,
                royalties: kept,
                refund: if back > 1 {
                    back
                } else {
                    0
                },
            },
        )
    }
}

} // verus!