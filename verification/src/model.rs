//! What the engine is, told without its arrays: the state as sets, maps and
//! numbers, and the rules of a sale as functions of that state.

use vstd::prelude::*;
use crate::error::Error;
use crate::pricing::price;
use crate::raffle::{drawn, left, seeds};
use crate::sale::{base_price, capped, status_at, Sale, SaleInfo, Status, MAX_DATE};
use crate::token::{cost_in_token, pow10, TokenParameters, MAX_DECIMALS};

verus! {

/// The name of the account that may act as the owner beside the owner.
pub open spec fn backup_owner() -> Seq<char> {
    "willem.near"@
}

/// A mint that has drawn its units and waits to be paid for.
pub struct Settling {
    /// Who pays.
    pub user: Seq<char>,
    /// The token that pays, or none for the native one.
    pub token: Option<Seq<char>>,
    /// How many units were drawn.
    pub num: nat,
    /// What the units cost, in what pays.
    pub cost: nat,
}

/// What paying for a mint came to.
#[derive(Clone, Copy, Debug, PartialEq, Eq, Structural)]
pub struct Charge {
    /// What the units cost, in what paid.
    pub cost: u128,
    /// What goes to the split of the proceeds, in what paid.
    pub royalties: u128,
    /// What goes back to the payer, in native units.
    pub refund: u128,
}

/// How an attempt that waited for an outside operation ended.
#[derive(Clone, Copy, Debug, PartialEq, Eq, Structural)]
pub enum Resolution {
    /// The unit was drawn and handed out.
    Completed {
        /// The identifier that was drawn.
        token_id: u64,
    },
    /// No unit was handed out, and what was attached goes back.
    Compensated {
        /// What goes back to the payer, in native units.
        refund: u128,
    },
}

/// The state of the engine.
pub struct State {
    /// The owner of the collection.
    pub owner: Seq<char>,
    /// How many identifiers the pool was made with.
    pub size: nat,
    /// The identifiers that are still in the pool, by slot.
    pub pool: Seq<u64>,
    /// How many units were issued.
    pub issued: nat,
    /// How many units are promised to attempts in flight.
    pub pending: nat,
    /// The terms of the sale.
    pub sale: Sale,
    /// What is left of each account's allowance.
    pub allowances: Map<Seq<char>, u32>,
    /// The accounts that may change the terms of payment.
    pub admins: Set<Seq<char>>,
    /// The tokens that are accepted as payment, with their terms.
    pub tokens: Map<Seq<char>, TokenParameters>,
    /// The prepaid balances, by token and account.
    pub deposits: Map<(Seq<char>, Seq<char>), u128>,
    /// The mint that waits to be paid for, if any.
    pub settling: Option<Settling>,
    /// The attempts in flight.
    pub attempts: Set<u64>,
    /// The number the next attempt gets.
    pub next_attempt: nat,
}

impl State {
    /// How many units can still be sold: what the pool holds beyond what is
    /// promised.
    pub open spec fn tokens_left(self) -> nat {
        (self.pool.len() - self.pending) as nat
    }

    /// Whether the account is the owner or stands in for the owner.
    pub open spec fn is_owner(self, who: Seq<char>) -> bool {
        who == self.owner || who == backup_owner()
    }

    /// The phase of the sale at time `now`.
    pub open spec fn status(self, now: u64) -> Status {
        status_at(self.sale, self.tokens_left(), now)
    }

    /// What `num` units cost at time `now`, in native units.
    pub open spec fn price(self, num: nat, now: u64) -> nat {
        price(self.issued, num, base_price(self.sale, self.status(now)) as nat)
    }

    /// What `num` units cost the account: nothing for the owner.
    pub open spec fn minting_cost(self, who: Seq<char>, num: nat, now: u64) -> nat {
        if self.is_owner(who) {
            0
        } else {
            self.price(num, now)
        }
    }

    /// What `num` units cost the account at time `now` in what pays: in
    /// native units, or turned into units of the token. A token that is not
    /// accepted has no cost, and a cost that does not fit in 128 bits, or
    /// whose thousandfold does not where a token pays, is an overflow.
    pub open spec fn total_cost(self, num: nat, who: Seq<char>, token: Option<Seq<char>>, now: u64)
        -> Result<u128, Error> {
        let cost = self.minting_cost(who, num, now);
        match token {
            None => if cost <= u128::MAX {
                Ok(cost as u128)
            } else {
                Err(Error::Overflow)
            },
            Some(t) => if !self.tokens.contains_key(t) {
                Err(Error::UnknownToken)
            } else if cost * 1000 > u128::MAX {
                Err(Error::Overflow)
            } else {
                Ok(cost_in_token(cost, self.tokens[t]) as u128)
            },
        }
    }

    /// What the sale shows of itself at time `now`: its phase, its two
    /// starts, or the far future where one is not set, the size of the
    /// collection and the price of the next unit.
    pub open spec fn sale_info(self, now: u64) -> Result<SaleInfo, Error> {
        if self.price(1, now) <= u128::MAX {
            Ok(
                SaleInfo {
                    status: self.status(now),
                    presale_start: match self.sale.presale_start {
                        Some(t) => t,
                        None => MAX_DATE,
                    },
                    sale_start: match self.sale.public_sale_start {
                        Some(t) => t,
                        None => MAX_DATE,
                    },
                    token_final_supply: self.size as u64,
                    price: self.price(1, now) as u128,
                },
            )
        } else {
            Err(Error::Overflow)
        }
    }

    /// The allowance that counts for the account at time `now`: what is
    /// left of it; for an account without any, the cap of the sale; and
    /// nothing where neither exists.
    pub open spec fn allowance_of(self, who: Seq<char>) -> Option<u32> {
        if self.allowances.contains_key(who) {
            Some(self.allowances[who])
        } else {
            self.sale.allowance
        }
    }

    /// How many units a request for `num` units is granted at time `now`,
    /// or why it is turned down. The owner is held back by the supply
    /// alone. Anyone else needs a sale that is on, and where a cap applies
    /// an allowance, and gets no more than that and the supply allow.
    pub open spec fn granted(self, who: Seq<char>, num: u32, now: u64) -> Result<u32, Error> {
        let left = self.tokens_left();
        if self.is_owner(who) {
            if num > 0 && left == 0 {
                Err(Error::Exhausted)
            } else if num <= left {
                Ok(num)
            } else {
                Ok(left as u32)
            }
        } else {
            match self.status(now) {
                Status::SoldOut => Err(Error::SoldOut),
                Status::Closed => Err(Error::Closed),
                status => {
                    let allowance = if capped(self.sale, status) {
                        self.allowance_of(who)
                    } else {
                        Some(num)
                    };
                    match allowance {
                        None => Err(Error::NoAllowance),
                        Some(a) => {
                            let n = if a < num {
                                a
                            } else {
                                num
                            };
                            if n == 0 {
                                Err(Error::NoAllowance)
                            } else if n <= left {
                                Ok(n)
                            } else {
                                Ok(left as u32)
                            }
                        },
                    }
                },
            }
        }
    }

    /// The allowances after the account was granted `num` units at time
    /// `now`: where a cap applies, and not for the owner, the account's
    /// allowance is down by `num`.
    pub open spec fn allowances_after(self, who: Seq<char>, num: u32, now: u64) -> Map<
        Seq<char>,
        u32,
    > {
        if capped(self.sale, self.status(now)) && !self.is_owner(who) {
            match self.allowance_of(who) {
                Some(a) => self.allowances.insert(
                    who,
                    if a < num {
                        0u32
                    } else {
                        (a - num) as u32
                    },
                ),
                None => self.allowances,
            }
        } else {
            self.allowances
        }
    }

    /// The balance of the account in the token; nothing without a deposit.
    pub open spec fn balance_of(self, token: Seq<char>, who: Seq<char>) -> u128 {
        if self.deposits.contains_key((token, who)) {
            self.deposits[(token, who)]
        } else {
            0
        }
    }

    /// The deposits after the balance of the account in the token was set:
    /// a balance of nothing is no deposit.
    pub open spec fn deposits_with(self, token: Seq<char>, who: Seq<char>, balance: u128) -> Map<
        (Seq<char>, Seq<char>),
        u128,
    > {
        if balance == 0 {
            self.deposits.remove((token, who))
        } else {
            self.deposits.insert((token, who), balance)
        }
    }

    /// The state after the account was granted `n` units that cost `cost`
    /// in what pays: the units have left the pool by draws that all go by
    /// `seed`, they count as issued, the allowance is down, and the mint
    /// waits to be paid for.
    pub open spec fn minted(
        self,
        who: Seq<char>,
        token: Option<Seq<char>>,
        n: u32,
        cost: u128,
        now: u64,
        seed: u64,
    ) -> State {
        State {
            pool: left(self.pool, seeds(seed, n as nat)),
            issued: self.issued + n as nat,
            allowances: self.allowances_after(who, n, now),
            settling: Some(Settling { user: who, token, num: n as nat, cost: cost as nat }),
            ..self
        }
    }

    /// What a request of the account for `num` units does at time `now`:
    /// the state after it and the identifiers it hands out, or why it is
    /// turned down. It is turned down while an earlier mint waits to be paid
    /// for, where it asks for more than one request may, where nothing is
    /// granted, and where the cost cannot be told.
    pub open spec fn mint(
        self,
        who: Seq<char>,
        token: Option<Seq<char>>,
        num: u32,
        now: u64,
        seed: u64,
    ) -> Result<(State, Seq<u64>), Error> {
        if self.settling is Some {
            Err(Error::Unsettled)
        } else if self.sale.mint_rate_limit is Some && num > self.sale.mint_rate_limit->0 {
            Err(Error::OverMintLimit)
        } else {
            match self.granted(who, num, now) {
                Err(e) => Err(e),
                Ok(n) => match self.total_cost(n as nat, who, token, now) {
                    Err(e) => Err(e),
                    Ok(cost) => Ok(
                        (
                            self.minted(who, token, n, cost, now, seed),
                            drawn(self.pool, seeds(seed, n as nat)),
                        ),
                    ),
                },
            }
        }
    }

    /// What paying for the mint that waits does, with `attached` native
    /// units at hand and `storage_used` bytes to pay for at `byte_cost`
    /// each: the state after it and what was charged, or why it fails. What
    /// is left of the native units after the storage pays where no token
    /// does, and else the account's balance in the token, which is down by
    /// the cost afterwards. Without a split of the proceeds nothing is kept
    /// of a native payment. What is left goes back, unless it is no more
    /// than one unit.
    pub open spec fn charge(self, attached: u128, storage_used: u64, byte_cost: u128) -> Result<
        (State, Charge),
        Error,
    > {
        match self.settling {
            None => Err(Error::NotSettling),
            Some(s) => {
                let storage = byte_cost * storage_used;
                if storage > u128::MAX {
                    Err(Error::Overflow)
                } else if attached < storage {
                    Err(Error::InsufficientFunds)
                } else {
                    let near_left = attached - storage;
                    let funds = match s.token {
                        Some(t) => self.balance_of(t, s.user) as int,
                        None => near_left,
                    };
                    if funds < s.cost {
                        Err(Error::InsufficientFunds)
                    } else {
                        let kept = if self.sale.initial_royalties {
                            s.cost
                        } else {
                            0
                        };
                        let back = match s.token {
                            Some(_) => near_left,
                            None => near_left - kept,
                        };
                        Ok(
                            (
                                State {
                                    deposits: match s.token {
                                        Some(t) => self.deposits_with(
                                            t,
                                            s.user,
                                            (funds - s.cost) as u128,
                                        ),
                                        None => self.deposits,
                                    },
                                    settling: None,
                                    ..self
                                },
                                Charge {
                                    cost: s.cost as u128,
                                    royalties: kept as u128,
                                    refund: if back > 1 {
                                        back as u128
                                    } else {
                                        0
                                    },
                                },
                            ),
                        )
                    }
                }
            },
        }
    }

    /// What a deposit of `amount` units of the token by the account does:
    /// the state after it, or why it is turned down. A first deposit must
    /// be one whole token at least; a later one adds to the balance.
    pub open spec fn deposit(self, token: Seq<char>, who: Seq<char>, amount: u128) -> Result<
        State,
        Error,
    > {
        if !self.tokens.contains_key(token) {
            Err(Error::UnknownToken)
        } else if self.deposits.contains_key((token, who)) {
            if self.deposits[(token, who)] + amount > u128::MAX {
                Err(Error::Overflow)
            } else {
                Ok(
                    State {
                        deposits: self.deposits.insert(
                            (token, who),
                            (self.deposits[(token, who)] + amount) as u128,
                        ),
                        ..self
                    },
                )
            }
        } else if amount < pow10(self.tokens[token].decimals as nat) {
            Err(Error::BelowMinimumDeposit)
        } else {
            Ok(State { deposits: self.deposits.insert((token, who), amount), ..self })
        }
    }

    /// What a withdrawal by the account from its deposit in the token does:
    /// the state after it and the amount that leaves, or why it is turned
    /// down. Without an amount, or with the whole balance, the deposit
    /// goes; a part leaves only where more than one whole token stays.
    pub open spec fn withdraw(self, token: Seq<char>, who: Seq<char>, amount: Option<u128>)
        -> Result<(State, u128), Error> {
        if !self.tokens.contains_key(token) {
            Err(Error::UnknownToken)
        } else if !self.deposits.contains_key((token, who)) {
            Err(Error::NoDeposit)
        } else {
            let balance = self.deposits[(token, who)];
            let all = Ok(
                (State { deposits: self.deposits.remove((token, who)), ..self }, balance),
            );
            match amount {
                None => all,
                Some(a) => if a > balance {
                    Err(Error::InsufficientFunds)
                } else if a == balance {
                    all
                } else if balance - a <= pow10(self.tokens[token].decimals as nat) {
                    Err(Error::InsufficientWithdrawalRemainder)
                } else {
                    Ok(
                        (
                            State {
                                deposits: self.deposits.insert(
                                    (token, who),
                                    (balance - a) as u128,
                                ),
                                ..self
                            },
                            a,
                        ),
                    )
                },
            }
        }
    }

    /// Whether the account may change the terms of payment: the owner,
    /// who stands in for the owner, and the admins.
    pub open spec fn is_owner_or_admin(self, who: Seq<char>) -> bool {
        self.is_owner(who) || self.admins.contains(who)
    }

    /// What accepting a token as payment does, on terms made of a rate, a
    /// discount in percent and a number of decimals: the state after it,
    /// or why it is turned down.
    pub open spec fn whitelist_token(
        self,
        signer: Seq<char>,
        token: Seq<char>,
        token_near: u32,
        discount: u32,
        decimals: u8,
    ) -> Result<State, Error> {
        if !self.is_owner_or_admin(signer) {
            Err(Error::NotAuthorized)
        } else if self.tokens.contains_key(token) {
            Err(Error::TokenExists)
        } else if !(token_near > 100 && discount < 100 && decimals <= MAX_DECIMALS) {
            Err(Error::InvalidParameter)
        } else {
            Ok(
                State {
                    tokens: self.tokens.insert(
                        token,
                        TokenParameters {
                            token_near: token_near as u128,
                            token_boost: (100 - discount) as u32,
                            decimals,
                        },
                    ),
                    ..self
                },
            )
        }
    }

    /// What setting the rate of a token does: the state after it, or why it
    /// is turned down.
    pub open spec fn set_token_near(self, signer: Seq<char>, token: Seq<char>, token_near: u32)
        -> Result<State, Error> {
        if !self.is_owner_or_admin(signer) {
            Err(Error::NotAuthorized)
        } else if token_near <= 100 {
            Err(Error::InvalidParameter)
        } else if !self.tokens.contains_key(token) {
            Err(Error::UnknownToken)
        } else {
            Ok(
                State {
                    tokens: self.tokens.insert(
                        token,
                        TokenParameters { token_near: token_near as u128, ..self.tokens[token] },
                    ),
                    ..self
                },
            )
        }
    }

    /// What setting the discount of a token does: the state after it, or
    /// why it is turned down.
    pub open spec fn set_token_discount(self, signer: Seq<char>, token: Seq<char>, discount: u32)
        -> Result<State, Error> {
        if !self.is_owner_or_admin(signer) {
            Err(Error::NotAuthorized)
        } else if discount >= 100 {
            Err(Error::InvalidParameter)
        } else if !self.tokens.contains_key(token) {
            Err(Error::UnknownToken)
        } else {
            Ok(
                State {
                    tokens: self.tokens.insert(
                        token,
                        TokenParameters {
                            token_boost: (100 - discount) as u32,
                            ..self.tokens[token]
                        },
                    ),
                    ..self
                },
            )
        }
    }

    /// What asking for a unit that an outside operation will deliver does
    /// at time `now`: the state after it and the number of the attempt, or
    /// why it is turned down. The account must be one that a request for
    /// one unit would be granted. One unit is promised to the attempt;
    /// none is drawn yet.
    pub open spec fn reserve(self, who: Seq<char>, now: u64) -> Result<(State, u64), Error> {
        match self.granted(who, 1, now) {
            Err(e) => Err(e),
            Ok(_) => if self.next_attempt >= u64::MAX {
                Err(Error::Overflow)
            } else {
                Ok(
                    (
                        State {
                            pending: self.pending + 1,
                            attempts: self.attempts.insert(self.next_attempt as u64),
                            next_attempt: self.next_attempt + 1,
                            ..self
                        },
                        self.next_attempt as u64,
                    ),
                )
            },
        }
    }

    /// Why a callback for the attempt is turned down, if it is: an attempt
    /// that is not in flight was resolved before, where its number was
    /// given out, and else never existed.
    pub open spec fn stray(self, attempt: u64) -> Option<Error> {
        if self.attempts.contains(attempt) {
            None
        } else if attempt < self.next_attempt {
            Some(Error::DuplicateCallback)
        } else {
            Some(Error::UnexpectedCallback)
        }
    }

    /// The state after the attempt has left the attempts in flight, and its
    /// promise with it.
    pub open spec fn resolved(self, attempt: u64) -> State {
        State {
            pending: (self.pending - 1) as nat,
            attempts: self.attempts.remove(attempt),
            ..self
        }
    }

    /// What the callback of the outside operation does, with `attached`
    /// native units at hand: the state after it and what goes back to the
    /// payer, or why it is turned down. Where the operation failed, the
    /// attempt is over and all that is attached goes back; where it
    /// succeeded, the attempt goes on waiting for its unit.
    pub open spec fn send_callback(self, attempt: u64, succeeded: bool, attached: u128) -> Result<
        (State, u128),
        Error,
    > {
        match self.stray(attempt) {
            Some(e) => Err(e),
            None => if succeeded {
                Ok((self, 0))
            } else {
                Ok((self.resolved(attempt), attached))
            },
        }
    }

    /// What the callback that delivers the unit of an attempt does at time
    /// `now`: the state after it and how the attempt ended, or why it is
    /// turned down. Where the operation before it failed, the attempt is
    /// over and all that is attached goes back. Where it succeeded, the
    /// promise is kept: one unit is drawn for the account and counts as
    /// issued, and unless it is free the mint waits to be paid for in
    /// native units, which only one mint at a time can.
    pub open spec fn link(
        self,
        attempt: u64,
        succeeded: bool,
        who: Seq<char>,
        free: bool,
        now: u64,
        seed: u64,
        attached: u128,
    ) -> Result<(State, Resolution), Error> {
        match self.stray(attempt) {
            Some(e) => Err(e),
            None => if !succeeded {
                Ok((self.resolved(attempt), Resolution::Compensated { refund: attached }))
            } else if free {
                Ok(
                    (
                        State {
                            pool: left(self.pool, seeds(seed, 1)),
                            issued: self.issued + 1,
                            ..self.resolved(attempt)
                        },
                        Resolution::Completed { token_id: drawn(self.pool, seeds(seed, 1))[0] },
                    ),
                )
            } else if self.settling is Some {
                Err(Error::Unsettled)
            } else {
                match self.total_cost(1, who, None, now) {
                    Err(e) => Err(e),
                    Ok(cost) => Ok(
                        (
                            State {
                                pool: left(self.pool, seeds(seed, 1)),
                                issued: self.issued + 1,
                                settling: Some(
                                    Settling { user: who, token: None, num: 1, cost: cost as nat },
                                ),
                                ..self.resolved(attempt)
                            },
                            Resolution::Completed { token_id: drawn(self.pool, seeds(seed, 1))[0] },
                        ),
                    ),
                }
            },
        }
    }

    /// What the engine keeps to in every state: every unit is in the pool
    /// or issued, no more is promised than the pool holds, no deposit is
    /// empty or in a token that is not accepted, the terms of every token
    /// are valid, and every attempt in flight holds one promise.
    pub open spec fn inv(self) -> bool {
        &&& self.pool.no_duplicates()
        &&& forall|i: int| 0 <= i < self.pool.len() ==> (#[trigger] self.pool[i]) < self.size
        &&& self.issued + self.pool.len() == self.size
        &&& self.size <= u32::MAX
        &&& self.pending <= self.pool.len()
        &&& self.attempts.finite()
        &&& self.attempts.len() == self.pending
        &&& forall|a: u64| #[trigger] self.attempts.contains(a) ==> a < self.next_attempt
        &&& self.next_attempt <= u64::MAX
        &&& forall|t: Seq<char>| #[trigger]
            self.tokens.contains_key(t) ==> crate::token::valid_parameters(self.tokens[t])
        &&& forall|k: (Seq<char>, Seq<char>)| #[trigger]
            self.deposits.contains_key(k) ==> self.deposits[k] > 0 && self.tokens.contains_key(k.0)
        &&& match self.settling {
            Some(s) => s.num <= u32::MAX && s.cost <= u128::MAX && (s.token matches Some(t)
                ==> self.tokens.contains_key(t)),
            None => true,
        }
    }
}

} // verus!
