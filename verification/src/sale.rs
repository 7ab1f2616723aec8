//! The terms of a sale and the phase it is in.

use vstd::prelude::*;

verus! {

/// The time, in milliseconds since the epoch, that stands for "not set" where
/// a start is shown.
pub const MAX_DATE: u64 = 8640000000000000;

/// The phase of a sale. It is never stored: time and supply decide it.
#[derive(Clone, Copy, Debug, PartialEq, Eq, Structural)]
pub enum Status {
    /// The public sale has begun.
    Open,
    /// Nothing is left to sell.
    SoldOut,
    /// No sale has begun.
    Closed,
    /// The presale has begun and the public sale has not.
    Presale,
}

/// The terms of a sale.
#[derive(Clone, Copy, Debug, PartialEq, Eq, Structural)]
pub struct Sale {
    /// Whether a split of the proceeds is set. Without one nothing is
    /// captured from a payment.
    pub initial_royalties: bool,
    /// When the presale begins, in milliseconds since the epoch.
    pub presale_start: Option<u64>,
    /// When the public sale begins, in milliseconds since the epoch.
    pub public_sale_start: Option<u64>,
    /// How many units one account may take while a cap applies.
    pub allowance: Option<u32>,
    /// The base price before the public sale, where it differs.
    pub presale_price: Option<u128>,
    /// The base price of a unit.
    pub price: u128,
    /// How many units one request may ask for.
    pub mint_rate_limit: Option<u32>,
}

/// The phase of a sale with `tokens_left` units to sell at time `now`: sold
/// out without units; else open once the public sale has begun; else in
/// presale once that has begun; else closed. A start that is not set never
/// comes.
pub open spec fn status_at(sale: Sale, tokens_left: nat, now: u64) -> Status {
    if tokens_left == 0 {
        Status::SoldOut
    } else if sale.public_sale_start is Some && sale.public_sale_start->0 < now {
        Status::Open
    } else if sale.presale_start is Some && sale.presale_start->0 < now {
        Status::Presale
    } else {
        Status::Closed
    }
}

/// The base price in a phase: the presale price, where one is set, until the
/// public sale begins, and the price from then on.
pub open spec fn base_price(sale: Sale, status: Status) -> u128 {
    match status {
        Status::Presale | Status::Closed => match sale.presale_price {
            Some(p) => p,
            None => sale.price,
        },
        Status::Open | Status::SoldOut => sale.price,
    }
}

/// Whether a cap on what one account may take applies in a phase: always in
/// the presale, and else where the terms set one.
pub open spec fn capped(sale: Sale, status: Status) -> bool {
    sale.allowance is Some || status == Status::Presale
}

impl Sale {
    /// Terms with a price and nothing else: no presale, no start, no cap,
    /// no split of the proceeds.
    pub fn new(price: u128) -> (sale: Sale)
        ensures
            sale == (Sale {
                initial_royalties: false,
                presale_start: None,
                public_sale_start: None,
                allowance: None,
                presale_price: None,
                price,
                mint_rate_limit: None,
            }),
    {
        Sale {
            initial_royalties: false,
            presale_start: None,
            public_sale_start: None,
            allowance: None,
            presale_price: None,
            price,
            mint_rate_limit: None,
        }
    }

    /// The phase of the sale with `tokens_left` units to sell at time `now`.
    pub fn status(&self, tokens_left: u32, now: u64) -> (status: Status)
        ensures
            status == status_at(*self, tokens_left as nat, now),
    {
        if tokens_left == 0 {
            return Status::SoldOut;
        }
        match (self.presale_start, self.public_sale_start) {
            (_, Some(public)) if public < now => Status::Open,
            (Some(pre), _) if pre < now => Status::Presale,
            (_, _) => Status::Closed,
        }
    }

    /// The base price in a phase.
    pub fn base_price(&self, status: Status) -> (p: u128)
        ensures
            p == base_price(*self, status),
    {
        match status {
            Status::Presale | Status::Closed => match self.presale_price {
                Some(p) => p,
                None => self.price,
            },
            Status::Open | Status::SoldOut => self.price,
        }
    }

    /// Whether a cap on what one account may take applies in a phase.
    pub fn capped(&self, status: Status) -> (b: bool)
        ensures
            b == capped(*self, status),
    {
        self.allowance.is_some() || status == Status::Presale
    }
}

/// What a sale shows of itself.
#[derive(Clone, Copy, Debug, PartialEq, Eq, Structural)]
pub struct SaleInfo {
    /// The phase of the sale.
    pub status: Status,
    /// When the presale begins, or `MAX_DATE`.
    pub presale_start: u64,
    /// When the public sale begins, or `MAX_DATE`.
    pub sale_start: u64,
    /// How many units the collection has in all.
    pub token_final_supply: u64,
    /// What the next unit costs.
    pub price: u128,
}

/// What a sale shows of itself to one account.
#[derive(Clone, Copy, Debug, PartialEq, Eq, Structural)]
pub struct UserSaleInfo {
    /// What the sale shows to everyone.
    pub sale_info: SaleInfo,
    /// Whether the account is on the allow list.
    pub is_vip: bool,
    /// What is left of the account's allowance while a cap applies.
    pub remaining_allowance: Option<u32>,
}

} // verus!
