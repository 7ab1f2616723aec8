//! The tokens that are accepted as payment beside the native one.

use vstd::prelude::*;

verus! {

/// The most decimals a token may have: one whole token must fit in 128 bits.
pub const MAX_DECIMALS: u8 = 38;

/// The terms on which one token is accepted as payment.
#[derive(Clone, Copy, Debug, PartialEq, Eq, Structural)]
pub struct TokenParameters {
    /// The conversion rate between the token and the native unit, in
    /// thousandths.
    pub token_near: u128,
    /// The share of the price that is asked where the token pays, in
    /// percent.
    pub token_boost: u32,
    /// How many decimals the token has.
    pub decimals: u8,
}

/// Ten to the power `e`.
pub open spec fn pow10(e: nat) -> nat
    decreases e,
{
    if e == 0 {
        1
    } else {
        10 * pow10((e - 1) as nat)
    }
}

/// A rate worth converting with, a share of at most the whole price, and a
/// precision whose whole token fits in 128 bits.
pub open spec fn valid_parameters(p: TokenParameters) -> bool {
    &&& p.token_near > 100
    &&& p.token_boost <= 100
    &&& p.decimals <= MAX_DECIMALS
}

/// A cost in native units, turned into units of a token: times a thousand,
/// by the rate, by a hundred, times the share, each division rounding down.
pub open spec fn cost_in_token(cost: nat, p: TokenParameters) -> nat {
    (cost * 1000 / (p.token_near as nat) / 100 * (p.token_boost as nat)) as nat
}

/// Powers of ten rise with the exponent.
pub proof fn lemma_pow10_monotonic(a: nat, b: nat)
    requires
        a <= b,
    ensures
        0 < pow10(a) <= pow10(b),
    decreases b,
{
    if b > 0 {
        if a < b {
            lemma_pow10_monotonic(a, (b - 1) as nat);
        } else {
            lemma_pow10_monotonic((a - 1) as nat, (b - 1) as nat);
        }
    }
}

/// One whole token of the most decimals fits in 128 bits.
pub proof fn lemma_pow10_max()
    ensures
        pow10(MAX_DECIMALS as nat) == 100000000000000000000000000000000000000,
        pow10(MAX_DECIMALS as nat) <= u128::MAX,
{
    reveal_with_fuel(pow10, 40);
}

/// One whole token in its smallest units.
pub fn one_token_in_yocto(decimals: u8) -> (one: u128)
    requires
        decimals <= MAX_DECIMALS,
    ensures
        one == pow10(decimals as nat),
{
    let mut one: u128 = 1;
    let mut e: u8 = 0;
    while e < decimals
        invariant
            e <= decimals <= MAX_DECIMALS,
            one == pow10(e as nat),
        decreases decimals - e,
    {
        proof {
            lemma_pow10_monotonic((e + 1) as nat, MAX_DECIMALS as nat);
            lemma_pow10_max();
        }
        one = one * 10;
        e = e + 1;
    }
    one
}

/// A cost in native units, turned into units of a token, or `None` where
/// its thousandfold does not fit in 128 bits.
pub fn checked_cost_in_token(cost: u128, parameters: &TokenParameters) -> (r: Option<u128>)
    requires
        valid_parameters(*parameters),
    ensures
        match r {
            Some(c) => cost * 1000 <= u128::MAX && c == cost_in_token(cost as nat, *parameters),
            None => cost * 1000 > u128::MAX,
        },
{
    match cost.checked_mul(1000) {
        None => None,
        Some(scaled) => {
            let part: u128 = scaled / parameters.token_near / 100;
            assert(part * parameters.token_boost <= u128::MAX) by (nonlinear_arith)
                requires
                    part <= scaled / 100,
                    parameters.token_boost <= 100,
                    scaled <= u128::MAX,
            ;
            Some(part * (parameters.token_boost as u128))
        },
    }
}

impl TokenParameters {
    /// Whether the terms are valid.
    pub fn is_valid(&self) -> (b: bool)
        ensures
            b == valid_parameters(*self),
    {
        self.token_near > 100 && self.token_boost <= 100 && self.decimals <= MAX_DECIMALS
    }

    /// The terms of a token that trades at `token_near` thousandths, is
    /// given `discount` percent off the price and has `decimals` decimals;
    /// `None` where the rate is not above a hundred, the discount not below
    /// a hundred, or the decimals too many.
    pub fn new(token_near: u32, discount: u32, decimals: u8) -> (r: Option<TokenParameters>)
        ensures
            r == if token_near > 100 && discount < 100 && decimals <= MAX_DECIMALS {
                Some(
                    TokenParameters {
                        token_near: token_near as u128,
                        token_boost: (100 - discount) as u32,
                        decimals,
                    },
                )
            } else {
                None
            },
            r matches Some(p) ==> valid_parameters(p),
    {
        if token_near > 100 && discount < 100 && decimals <= MAX_DECIMALS {
            Some(
                TokenParameters {
                    token_near: token_near as u128,
                    token_boost: 100 - discount,
                    decimals,
                },
            )
        } else {
            None
        }
    }
}

} // verus!
